//! Service settings: what they hold, how they are shown, and when a change needs care.

use vstd::prelude::*;

use crate::journal;
use crate::json;
use crate::json::Json;
use crate::json::JsonView;
use crate::model::Duplicate;
use crate::recovery::OutcomeView;
use crate::recovery::RecoveryOutcome;
use crate::text;

verus! {

/// How the inventory server is reached.
#[derive(Clone, Debug, PartialEq, Eq)]
pub struct SnipeItSettings {
    pub url: String,
    pub api_token_encrypted: Vec<u8>,
    pub checkout_status_id: u64,
    pub checkin_status_id: u64,
}

/// How often the service synchronizes on its own.
#[derive(Clone, Copy, Debug, PartialEq, Eq, Structural)]
pub struct PollingSettings {
    pub interval_hours: u64,
}

/// How the service logs.
#[derive(Clone, Debug, PartialEq, Eq)]
pub struct LoggingSettings {
    pub level: String,
    pub max_files: u32,
}

/// The settings of the service.
#[derive(Clone, Debug, PartialEq, Eq)]
pub struct Settings {
    pub snipeit: SnipeItSettings,
    pub polling: PollingSettings,
    pub logging: LoggingSettings,
    /// How absent monitors are treated. Only the planning of a synchronization looks into it.
    pub monitors: Json,
}

/// The deep view of [`Settings`].
#[verifier::ext_equal]
pub struct SettingsView {
    pub url: Seq<char>,
    pub api_token_encrypted: Seq<u8>,
    pub checkout_status_id: u64,
    pub checkin_status_id: u64,
    pub interval_hours: u64,
    pub level: Seq<char>,
    pub max_files: u32,
    pub monitors: JsonView,
}

impl DeepView for Settings {
    type V = SettingsView;

    open spec fn deep_view(&self) -> SettingsView {
        SettingsView {
            url: self.snipeit.url@,
            api_token_encrypted: self.snipeit.api_token_encrypted@,
            checkout_status_id: self.snipeit.checkout_status_id,
            checkin_status_id: self.snipeit.checkin_status_id,
            interval_hours: self.polling.interval_hours,
            level: self.logging.level@,
            max_files: self.logging.max_files,
            monitors: json::json_view(self.monitors),
        }
    }
}

/// Copies bytes.
pub fn copy_bytes(bytes: &[u8]) -> (copy: Vec<u8>)
    ensures
        copy@ == bytes@,
{
    let mut copy: Vec<u8> = Vec::new();
    let mut index: usize = 0;
    while index < bytes.len()
        invariant
            index <= bytes@.len(),
            copy@ == bytes@.take(index as int),
        decreases bytes.len() - index,
    {
        copy.push(bytes[index]);
        index += 1;
        proof {
            assert(copy@ =~= bytes@.take(index as int));
        }
    }
    proof {
        assert(bytes@.take(bytes@.len() as int) =~= bytes@);
    }
    copy
}

impl Duplicate for Settings {
    fn duplicate(&self) -> (copy: Self) {
        Settings {
            snipeit: SnipeItSettings {
                url: self.snipeit.url.clone(),
                api_token_encrypted: copy_bytes(self.snipeit.api_token_encrypted.as_slice()),
                checkout_status_id: self.snipeit.checkout_status_id,
                checkin_status_id: self.snipeit.checkin_status_id,
            },
            polling: self.polling,
            logging: LoggingSettings {
                level: self.logging.level.clone(),
                max_files: self.logging.max_files,
            },
            monitors: self.monitors.duplicate(),
        }
    }
}

/// Settings with another protected token.
pub open spec fn with_token_view(settings: SettingsView, token: Seq<u8>) -> SettingsView {
    SettingsView { api_token_encrypted: token, ..settings }
}

/// Replaces the protected token of some settings.
pub fn with_token(settings: &Settings, token: Vec<u8>) -> (changed: Settings)
    ensures
        changed.deep_view() == with_token_view(settings.deep_view(), token@),
{
    let mut changed = settings.duplicate();
    changed.snipeit.api_token_encrypted = token;
    changed
}

/// Removes the protected token from settings that leave the service.
pub fn redact_settings(settings: &Settings) -> (redacted: Settings)
    ensures
        redacted.deep_view() == with_token_view(settings.deep_view(), Seq::empty()),
{
    let token: Vec<u8> = Vec::new();
    with_token(settings, token)
}

/// What is shown in place of a protected token.
pub open spec fn token_display(token: Seq<u8>) -> Seq<char> {
    if token.len() == 0 {
        "<not set>"@
    } else {
        "<configured>"@
    }
}

/// The settings that may be shown, in order.
pub open spec fn display_of(settings: SettingsView) -> Seq<(Seq<char>, Seq<char>)> {
    seq![
        ("snipeit.url"@, settings.url),
        ("snipeit.api_token_encrypted"@, token_display(settings.api_token_encrypted)),
        ("polling.interval_hours"@, text::decimal_text(settings.interval_hours as nat)),
    ]
}

/// Lists the settings for display. Of the token only its presence is shown.
pub fn censored_display(settings: &Settings) -> (display: Vec<(String, String)>)
    ensures
        display.deep_view() == display_of(settings.deep_view()),
{
    let token = if settings.snipeit.api_token_encrypted.len() == 0 {
        "<not set>".to_owned()
    } else {
        "<configured>".to_owned()
    };
    let mut display: Vec<(String, String)> = Vec::new();
    display.push(("snipeit.url".to_owned(), settings.snipeit.url.clone()));
    display.push(("snipeit.api_token_encrypted".to_owned(), token));
    display.push(
        (
            "polling.interval_hours".to_owned(),
            text::decimal(settings.polling.interval_hours as u128),
        ),
    );
    proof {
        assert(display.deep_view() =~= display_of(settings.deep_view()));
    }
    display
}

/// Settings that differ in their protected token alone, and have one or not alike, are shown
/// alike.
pub proof fn display_hides_the_token(settings: SettingsView, token: Seq<u8>)
    requires
        (token.len() == 0) == (settings.api_token_encrypted.len() == 0),
    ensures
        display_of(with_token_view(settings, token)) == display_of(settings),
{
}

/// The length of an automatic synchronization interval in seconds.
pub open spec fn interval_length(interval_hours: u64) -> nat {
    interval_hours as nat * 3600
}

/// Gives the length of an automatic synchronization interval in seconds.
pub fn interval_seconds(interval_hours: u64) -> (seconds: u64)
    requires
        interval_length(interval_hours) <= u64::MAX,
    ensures
        seconds == interval_length(interval_hours),
{
    interval_hours * 60 * 60
}

/// Whether two settings name different remote operations.
pub open spec fn identity_changed(current: SettingsView, candidate: SettingsView) -> bool {
    current.url != candidate.url || current.checkout_status_id != candidate.checkout_status_id
        || current.checkin_status_id != candidate.checkin_status_id
}

/// Decides whether a settings candidate changes the identity of remote operations.
pub fn remote_identity_changed(current: &Settings, candidate: &Settings) -> (changed: bool)
    ensures
        changed == identity_changed(current.deep_view(), candidate.deep_view()),
{
    current.snipeit.url != candidate.snipeit.url || current.snipeit.checkout_status_id
        != candidate.snipeit.checkout_status_id || current.snipeit.checkin_status_id
        != candidate.snipeit.checkin_status_id
}

/// Why the identity of remote operations cannot change.
#[derive(Clone, Copy, Debug, PartialEq, Eq, Structural)]
pub enum IdentityChangeError {
    /// The journal could not be read, or its records are out of order.
    JournalInvalid,
    /// The journal waits for an operator.
    RecoveryBlocked,
    /// The journal holds operations that are not finished.
    OperationsPending,
}

/// The text of an [`IdentityChangeError`].
pub open spec fn identity_change_text(error: IdentityChangeError) -> Seq<char> {
    match error {
        IdentityChangeError::JournalInvalid =>
            "cannot change remote identity while operation journal is invalid"@,
        IdentityChangeError::RecoveryBlocked =>
            "cannot change remote identity while operation journal recovery is blocked"@,
        IdentityChangeError::OperationsPending =>
            "cannot change remote identity while operations are pending"@,
    }
}

impl IdentityChangeError {
    /// Describes the error.
    pub fn message(&self) -> (message: String)
        ensures
            message@ == identity_change_text(*self),
    {
        match self {
            IdentityChangeError::JournalInvalid =>
                "cannot change remote identity while operation journal is invalid".to_owned(),
            IdentityChangeError::RecoveryBlocked =>
                "cannot change remote identity while operation journal recovery is blocked".to_owned(),
            IdentityChangeError::OperationsPending =>
                "cannot change remote identity while operations are pending".to_owned(),
        }
    }
}

/// Whether a settings candidate is admitted, given what recovering the journal gave: `None` where
/// the journal could not be recovered at all.
pub open spec fn identity_change(
    current: SettingsView,
    candidate: SettingsView,
    recovered: Option<OutcomeView>,
) -> Result<(), IdentityChangeError> {
    if !identity_changed(current, candidate) {
        Ok(())
    } else {
        match recovered {
            None => Err(IdentityChangeError::JournalInvalid),
            Some(OutcomeView::Clean { records }) => match journal::replay(records) {
                Err(_) => Err(IdentityChangeError::JournalInvalid),
                Ok(progress) => if progress.pending.len() == 0 {
                    Ok(())
                } else {
                    Err(IdentityChangeError::OperationsPending)
                },
            },
            Some(_) => Err(IdentityChangeError::RecoveryBlocked),
        }
    }
}

/// Refuses to change the identity of remote operations while evidence of any is pending, or while
/// that cannot be told. `recovered` is what recovering the journal gave, `None` where it failed;
/// it is not looked at if the identity stays.
pub fn guard_remote_identity_change(
    current: &Settings,
    candidate: &Settings,
    recovered: &Option<RecoveryOutcome>,
) -> (result: Result<(), IdentityChangeError>)
    ensures
        result == identity_change(
            current.deep_view(),
            candidate.deep_view(),
            recovered.deep_view(),
        ),
{
    if !remote_identity_changed(current, candidate) {
        return Ok(());
    }
    match recovered {
        None => Err(IdentityChangeError::JournalInvalid),
        Some(RecoveryOutcome::Clean { records }) => match journal::pending_with_evidence(records) {
            Err(_) => Err(IdentityChangeError::JournalInvalid),
            Ok(pending) => if pending.len() == 0 {
                Ok(())
            } else {
                Err(IdentityChangeError::OperationsPending)
            },
        },
        Some(_) => Err(IdentityChangeError::RecoveryBlocked),
    }
}

// ---------------------------------------------------------------------------------------------
// Decryption
// ---------------------------------------------------------------------------------------------

/// What is needed to talk to the server.
#[derive(Clone, PartialEq, Eq)]
pub struct DecryptedConfig {
    pub url: String,
    pub api_token: String,
    pub checkout_status_id: u64,
    pub checkin_status_id: u64,
}

/// A token that is no text.
#[derive(Clone, Copy, Debug, PartialEq, Eq, Structural)]
pub struct InvalidToken;

impl InvalidToken {
    /// Describes the error, without the token.
    pub fn message(&self) -> (message: String)
        ensures
            message@ == "decrypted API token is not UTF-8"@,
    {
        "decrypted API token is not UTF-8".to_owned()
    }
}

/// Joins the settings with the token that was decrypted from them.
pub fn decrypt_config(settings: &Settings, token: Vec<u8>) -> (result: Result<
    DecryptedConfig,
    InvalidToken,
>)
    ensures
        match result {
            Ok(decrypted) => {
                &&& vstd::utf8::valid_utf8(token@)
                &&& decrypted.api_token@ == vstd::utf8::decode_utf8(token@)
                &&& decrypted.url@ == settings.snipeit.url@
                &&& decrypted.checkout_status_id == settings.snipeit.checkout_status_id
                &&& decrypted.checkin_status_id == settings.snipeit.checkin_status_id
            },
            Err(_) => !vstd::utf8::valid_utf8(token@),
        },
{
    match text::decode_utf8(token) {
        None => Err(InvalidToken),
        Some(api_token) => Ok(
            DecryptedConfig {
                url: settings.snipeit.url.clone(),
                api_token,
                checkout_status_id: settings.snipeit.checkout_status_id,
                checkin_status_id: settings.snipeit.checkin_status_id,
            },
        ),
    }
}

/// A token that was stored as the UTF-8 of a text is accepted and read back as that text.
pub proof fn tokens_are_read_back(token: Seq<char>)
    ensures
        vstd::utf8::valid_utf8(vstd::utf8::encode_utf8(token)),
        vstd::utf8::decode_utf8(vstd::utf8::encode_utf8(token)) == token,
{
    vstd::utf8::encode_utf8_valid_utf8(token);
    vstd::utf8::encode_utf8_decode_utf8(token);
}

/// Settings have the token that was last put into them, and are otherwise as they were.
pub proof fn the_last_token_counts(settings: SettingsView, first: Seq<u8>, second: Seq<u8>)
    ensures
        with_token_view(with_token_view(settings, first), second) == with_token_view(
            settings,
            second,
        ),
        with_token_view(settings, first).api_token_encrypted == first,
        with_token_view(settings, settings.api_token_encrypted) == settings,
        with_token_view(settings, first).url == settings.url,
        with_token_view(settings, first).interval_hours == settings.interval_hours,
        with_token_view(settings, first).checkout_status_id == settings.checkout_status_id,
        with_token_view(settings, first).checkin_status_id == settings.checkin_status_id,
{
}

/// The display shows the address and the interval, and of the token whether there is one.
pub proof fn display_tells_settings_apart(first: SettingsView, second: SettingsView)
    requires
        display_of(first) == display_of(second),
    ensures
        first.url == second.url,
        first.interval_hours == second.interval_hours,
        first.api_token_encrypted.len() == 0 <==> second.api_token_encrypted.len() == 0,
{
    reveal_strlit("<not set>");
    reveal_strlit("<configured>");
    let a = display_of(first);
    let b = display_of(second);
    assert(a[0] == b[0]);
    assert(a[1] == b[1]);
    assert(a[2] == b[2]);
    assert(a[1].1.len() == b[1].1.len());
    text::decimal_round_trip(first.interval_hours as nat, u64::MAX as nat);
    text::decimal_round_trip(second.interval_hours as nat, u64::MAX as nat);
}

/// Another token or interval is no other server: the remote identity is the address and the two
/// statuses, and changes exactly if one of them does, in whichever direction.
pub proof fn the_remote_identity_is_address_and_statuses(
    current: SettingsView,
    candidate: SettingsView,
    token: Seq<u8>,
)
    ensures
        !identity_changed(current, with_token_view(current, token)),
        !identity_changed(current, current),
        identity_changed(current, candidate) == identity_changed(candidate, current),
        current.url != candidate.url ==> identity_changed(current, candidate),
        current.checkout_status_id != candidate.checkout_status_id ==> identity_changed(
            current,
            candidate,
        ),
        current.checkin_status_id != candidate.checkin_status_id ==> identity_changed(
            current,
            candidate,
        ),
        !identity_changed(current, candidate) <==> current.url == candidate.url
            && current.checkout_status_id == candidate.checkout_status_id
            && current.checkin_status_id == candidate.checkin_status_id,
{
}

/// A change to another server is allowed only where the journal was recovered clean and nothing in
/// it is pending, so that no operation is ever taken up against another server; any other change is
/// always allowed.
pub proof fn pending_operations_bind_to_their_server(
    current: SettingsView,
    candidate: SettingsView,
    recovered: Option<OutcomeView>,
)
    ensures
        ({
            let same = current.url == candidate.url && current.checkout_status_id
                == candidate.checkout_status_id && current.checkin_status_id
                == candidate.checkin_status_id;
            let allowed = identity_change(current, candidate, recovered);
            &&& same ==> allowed is Ok
            &&& !same && allowed is Ok ==> {
                &&& recovered is Some
                &&& recovered->0 is Clean
                &&& journal::replay(recovered->0->Clean_records) is Ok
                &&& journal::replay(recovered->0->Clean_records)->Ok_0.pending.len() == 0
            }
            &&& !same && recovered is None ==> allowed == Err::<(), IdentityChangeError>(
                IdentityChangeError::JournalInvalid,
            )
            &&& !same && recovered is Some && !(recovered->0 is Clean) ==> allowed == Err::<
                (),
                IdentityChangeError,
            >(IdentityChangeError::RecoveryBlocked)
            &&& !same && recovered is Some && recovered->0 is Clean && journal::replay(
                recovered->0->Clean_records,
            ) is Ok ==> allowed == if journal::replay(
                recovered->0->Clean_records,
            )->Ok_0.pending.len() == 0 {
                Ok::<(), IdentityChangeError>(())
            } else {
                Err::<(), IdentityChangeError>(IdentityChangeError::OperationsPending)
            }
        }),
{
}

} // verus!
