//! Operation identifiers: `patch:<asset>:<request>`, `checkout:…` and `checkin:…`.

use vstd::prelude::*;

use crate::model::AssetPatchRequest;
use crate::model::PatchView;
use crate::text;

verus! {

/// How a character is written in a JSON string.
pub open spec fn escaped_char(character: char) -> Seq<char> {
    if character == '"' || character == '\\' {
        seq!['\\', character]
    } else if character == '\u{8}' {
        seq!['\\', 'b']
    } else if character == '\t' {
        seq!['\\', 't']
    } else if character == '\n' {
        seq!['\\', 'n']
    } else if character == '\u{c}' {
        seq!['\\', 'f']
    } else if character == '\r' {
        seq!['\\', 'r']
    } else if character <= '\u{1f}' {
        let code = character as int;
        seq!['\\', 'u', '0', '0', text::digit_char(code / 16), text::digit_char(code % 16)]
    } else {
        seq![character]
    }
}

/// How a text is written in a JSON string.
pub open spec fn escaped(text: Seq<char>) -> Seq<char>
    decreases text.len(),
{
    if text.len() == 0 {
        Seq::empty()
    } else {
        escaped(text.drop_last()) + escaped_char(text.last())
    }
}

/// The JSON text of a string: in quotation marks, with escapes.
pub open spec fn quoted(text: Seq<char>) -> Seq<char> {
    seq!['"'] + escaped(text) + seq!['"']
}

/// Renders a string as JSON.
///
/// Trusted wrapper of `serde_json::to_string` on a string, which cannot fail. It puts the text in
/// quotation marks. Quotation marks, backslashes and control characters below the space are
/// escaped, with the short escape where JSON has one and with four hexadecimal digits otherwise;
/// all other characters stay as they are.
#[verifier::external_body]
pub(crate) fn quote(text: &str) -> (json: String)
    ensures
        json@ == quoted(text@),
{
    serde_json::to_string(text).unwrap_or_default()
}

/// Adds a member to the text of an object whose members so far are `members`.
pub open spec fn with_member(members: Seq<char>, key: Seq<char>, value: Seq<char>) -> Seq<char> {
    (if members.len() == 0 {
        members
    } else {
        members + ","@
    }) + "\""@ + key + "\":"@ + value
}

/// Adds a text member if there is one.
pub open spec fn with_text_member(
    members: Seq<char>,
    key: Seq<char>,
    value: Option<Seq<char>>,
) -> Seq<char> {
    match value {
        Some(text) => with_member(members, key, quoted(text)),
        None => members,
    }
}

/// The compact JSON text of a patch: the fields that it sets, in declaration order.
pub open spec fn patch_text(request: PatchView) -> Seq<char> {
    let name = with_text_member(Seq::empty(), "name"@, request.name);
    let serial = with_text_member(name, "serial"@, request.serial);
    let tag = with_text_member(serial, "asset_tag"@, request.asset_tag);
    let model = match request.model_id {
        Some(id) => with_member(tag, "model_id"@, text::decimal_text(id as nat)),
        None => tag,
    };
    "{"@ + model + "}"@
}

fn add_member(members: String, key: &str, value: &str) -> (result: String)
    ensures
        result@ == with_member(members@, key@, value@),
{
    let mut result = members;
    if !result.as_str().is_empty() {
        result.append(",");
    }
    result.append("\"");
    result.append(key);
    result.append("\":");
    result.append(value);
    result
}

fn add_text_member(members: String, key: &str, value: &Option<String>) -> (result: String)
    ensures
        result@ == with_text_member(members@, key@, value.deep_view()),
{
    match value {
        Some(text) => add_member(members, key, quote(text.as_str()).as_str()),
        None => members,
    }
}

/// Renders a patch as compact JSON.
pub fn serialize_operation(request: &AssetPatchRequest) -> (json: String)
    ensures
        json@ == patch_text(request.deep_view()),
{
    let members = add_text_member(String::new(), "name", &request.name);
    let members = add_text_member(members, "serial", &request.serial);
    let members = add_text_member(members, "asset_tag", &request.asset_tag);
    let members = match request.model_id {
        Some(id) => add_member(members, "model_id", text::decimal(id as u128).as_str()),
        None => members,
    };
    text::join3("{", members.as_str(), "}")
}

/// The identifier of the operation that applies `request` to an asset.
pub open spec fn patch_id(asset_id: u64, request: PatchView) -> Seq<char> {
    "patch:"@ + text::decimal_text(asset_id as nat) + ":"@ + patch_text(request)
}

/// Builds the identifier of a patch operation.
pub fn patch_operation_id(asset_id: u64, request: &AssetPatchRequest) -> (id: String)
    ensures
        id@ == patch_id(asset_id, request.deep_view()),
{
    let mut id = text::join3("patch:", text::decimal(asset_id as u128).as_str(), ":");
    id.append(serialize_operation(request).as_str());
    id
}

/// The kinds of operation.
#[derive(Clone, Copy, Debug, PartialEq, Eq, Structural)]
pub enum OperationKind {
    Patch,
    Checkout,
    Checkin,
    Unknown,
}

/// The kind that an identifier announces.
pub open spec fn kind_of(id: Seq<char>) -> OperationKind {
    if "patch:"@.is_prefix_of(id) {
        OperationKind::Patch
    } else if "checkout:"@.is_prefix_of(id) {
        OperationKind::Checkout
    } else if "checkin:"@.is_prefix_of(id) {
        OperationKind::Checkin
    } else {
        OperationKind::Unknown
    }
}

/// Reads the kind of an operation off its identifier.
pub fn operation_kind(id: &str) -> (kind: OperationKind)
    ensures
        kind == kind_of(id@),
{
    let chars = text::to_chars(id);
    if text::starts_with(&chars, &text::to_chars("patch:")) {
        OperationKind::Patch
    } else if text::starts_with(&chars, &text::to_chars("checkout:")) {
        OperationKind::Checkout
    } else if text::starts_with(&chars, &text::to_chars("checkin:")) {
        OperationKind::Checkin
    } else {
        OperationKind::Unknown
    }
}

/// Why the identifier of a patch operation names no asset.
#[derive(Clone, Copy, Debug, PartialEq, Eq, Structural)]
pub enum PatchIdError {
    Malformed,
    InvalidAssetId,
    ZeroAssetId,
}

impl PatchIdError {
    /// Renders the error.
    pub fn message(&self) -> (text: String)
        ensures
            text@ == match *self {
                PatchIdError::Malformed => "malformed prepared patch operation ID"@,
                PatchIdError::InvalidAssetId => "invalid asset ID in prepared patch operation"@,
                PatchIdError::ZeroAssetId => "prepared patch asset ID must be nonzero"@,
            },
    {
        match self {
            PatchIdError::Malformed => "malformed prepared patch operation ID".to_owned(),
            PatchIdError::InvalidAssetId =>
            "invalid asset ID in prepared patch operation".to_owned(),
            PatchIdError::ZeroAssetId => "prepared patch asset ID must be nonzero".to_owned(),
        }
    }
}

/// What follows `patch:` in an identifier.
pub open spec fn after_patch(id: Seq<char>) -> Seq<char> {
    id.skip("patch:"@.len() as int)
}

/// The asset that the identifier of a patch names; other identifiers name none.
pub open spec fn patch_target(id: Seq<char>) -> Result<Option<u64>, PatchIdError> {
    if !"patch:"@.is_prefix_of(id) {
        Ok(None)
    } else {
        let rest = after_patch(id);
        let colon = text::find_from(rest, ':', 0);
        if colon >= rest.len() {
            Err(PatchIdError::Malformed)
        } else {
            match text::parsed_decimal(rest.take(colon), u64::MAX as nat) {
                None => Err(PatchIdError::InvalidAssetId),
                Some(number) => if number == 0 {
                    Err(PatchIdError::ZeroAssetId)
                } else {
                    Ok(Some(number as u64))
                },
            }
        }
    }
}

/// The asset number between `patch:` and the next colon, zero included.
pub open spec fn announced_asset(id: Seq<char>) -> Option<u64> {
    if !"patch:"@.is_prefix_of(id) {
        None
    } else {
        let rest = after_patch(id);
        let colon = text::find_from(rest, ':', 0);
        if colon >= rest.len() {
            None
        } else {
            match text::parsed_decimal(rest.take(colon), u64::MAX as nat) {
                None => None,
                Some(number) => Some(number as u64),
            }
        }
    }
}

/// Reads the asset number of a patch identifier, distinguishing why there is none.
pub fn patch_asset_id(operation_id: &str) -> (result: Result<Option<u64>, PatchIdError>)
    ensures
        result == patch_target(operation_id@),
{
    let chars = text::to_chars(operation_id);
    let prefix = text::to_chars("patch:");
    if !text::starts_with(&chars, &prefix) {
        return Ok(None);
    }
    let rest = text::slice_chars(&chars, prefix.len(), chars.len());
    proof {
        assert(rest@ == after_patch(operation_id@));
    }
    let colon = text::find_char(&rest, ':', 0);
    if colon >= rest.len() {
        return Err(PatchIdError::Malformed);
    }
    let digits = text::slice_chars(&rest, 0, colon);
    proof {
        assert(digits@ == rest@.take(colon as int));
    }
    match text::parse_decimal(&digits, u64::MAX) {
        None => Err(PatchIdError::InvalidAssetId),
        Some(number) => if number == 0 {
            Err(PatchIdError::ZeroAssetId)
        } else {
            Ok(Some(number))
        },
    }
}

/// Reads the asset number of a patch identifier, zero included.
pub fn announced_asset_id(operation_id: &str) -> (result: Option<u64>)
    ensures
        result == announced_asset(operation_id@),
{
    let chars = text::to_chars(operation_id);
    let prefix = text::to_chars("patch:");
    if !text::starts_with(&chars, &prefix) {
        return None;
    }
    let rest = text::slice_chars(&chars, prefix.len(), chars.len());
    proof {
        assert(rest@ == after_patch(operation_id@));
    }
    let colon = text::find_char(&rest, ':', 0);
    if colon >= rest.len() {
        return None;
    }
    let digits = text::slice_chars(&rest, 0, colon);
    proof {
        assert(digits@ == rest@.take(colon as int));
    }
    text::parse_decimal(&digits, u64::MAX)
}

/// The identifier of a patch operation names the asset that it was built for.
pub proof fn patch_id_names_its_asset(asset_id: u64, request: PatchView)
    ensures
        kind_of(patch_id(asset_id, request)) == OperationKind::Patch,
        announced_asset(patch_id(asset_id, request)) == Some(asset_id),
        asset_id != 0 ==> patch_target(patch_id(asset_id, request)) == Ok::<
            Option<u64>,
            PatchIdError,
        >(Some(asset_id)),
{
    let id = patch_id(asset_id, request);
    let digits = text::decimal_text(asset_id as nat);
    let tail = ":"@ + patch_text(request);
    reveal_strlit(":");
    assert(id.take("patch:"@.len() as int) == "patch:"@);
    assert("patch:"@.is_prefix_of(id));
    assert(after_patch(id) == digits + tail);
    text::lemma_decimal_value(asset_id as nat);
    text::decimal_round_trip(asset_id as nat, u64::MAX as nat);
    let rest = digits + tail;
    text::lemma_find_from(rest, ':', 0);
    let colon = text::find_from(rest, ':', 0);
    assert(rest[digits.len() as int] == ':');
    if colon < digits.len() {
        assert(text::is_digit(digits[colon]));
    }
    assert(colon == digits.len());
    assert(rest.take(colon) == digits);
}

proof fn lemma_escaped_front(text: Seq<char>)
    requires
        text.len() > 0,
    ensures
        escaped(text) == escaped_char(text[0]) + escaped(text.skip(1)),
    decreases text.len(),
{
    if text.len() == 1 {
        assert(text.drop_last() =~= Seq::<char>::empty());
        assert(text.skip(1) =~= Seq::<char>::empty());
        assert(escaped(text) =~= escaped_char(text[0]) + escaped(text.skip(1)));
    } else {
        let shorter = text.drop_last();
        lemma_escaped_front(shorter);
        assert(shorter.skip(1) =~= text.skip(1).drop_last());
        assert(text.skip(1).last() == text.last());
        assert(escaped(text) =~= escaped_char(text[0]) + escaped(text.skip(1)));
    }
}

proof fn lemma_escapes_are_told_apart(
    first: char,
    second: char,
    left: Seq<char>,
    right: Seq<char>,
)
    requires
        escaped_char(first) + left == escaped_char(second) + right,
    ensures
        first == second,
        left == right,
{
    let a = escaped_char(first);
    let b = escaped_char(second);
    let whole = a + left;
    assert(whole == b + right);
    assert(whole[0] == a[0]);
    assert(whole[0] == b[0]);
    if a.len() > 1 && b.len() > 1 {
        assert(whole[1] == a[1]);
        assert(whole[1] == b[1]);
        if a.len() > 2 && b.len() > 2 {
            assert(whole[4] == a[4]);
            assert(whole[4] == b[4]);
            assert(whole[5] == a[5]);
            assert(whole[5] == b[5]);
            let x = first as int;
            let y = second as int;
            assert(text::digit_char(x / 16) == text::digit_char(y / 16));
            assert(text::digit_char(x % 16) == text::digit_char(y % 16));
            assert(0 <= x < 32);
            assert(0 <= y < 32);
            assert(x / 16 == y / 16);
            assert(x % 16 == y % 16);
            assert(x == y);
        }
    }
    assert(first == second);
    assert(left =~= whole.skip(a.len() as int));
    assert(right =~= whole.skip(b.len() as int));
}

proof fn lemma_quotes_end(first: Seq<char>, second: Seq<char>, left: Seq<char>, right: Seq<char>)
    requires
        escaped(first) + seq!['"'] + left == escaped(second) + seq!['"'] + right,
    ensures
        first == second,
        left == right,
    decreases first.len(),
{
    let a = escaped(first) + seq!['"'] + left;
    let b = escaped(second) + seq!['"'] + right;
    if first.len() == 0 && second.len() == 0 {
        assert(first =~= second);
        assert(left =~= a.skip(1));
        assert(right =~= b.skip(1));
    } else if first.len() == 0 {
        lemma_escaped_front(second);
        assert(a[0] == '"');
        assert(b[0] == escaped_char(second[0])[0]);
        assert(false);
    } else if second.len() == 0 {
        lemma_escaped_front(first);
        assert(b[0] == '"');
        assert(a[0] == escaped_char(first[0])[0]);
        assert(false);
    } else {
        lemma_escaped_front(first);
        lemma_escaped_front(second);
        let x = escaped(first.skip(1)) + seq!['"'] + left;
        let y = escaped(second.skip(1)) + seq!['"'] + right;
        assert(a =~= escaped_char(first[0]) + x);
        assert(b =~= escaped_char(second[0]) + y);
        lemma_escapes_are_told_apart(first[0], second[0], x, y);
        lemma_quotes_end(first.skip(1), second.skip(1), left, right);
        assert(first =~= seq![first[0]] + first.skip(1));
        assert(second =~= seq![second[0]] + second.skip(1));
    }
}

/// A quoted text is told from every other, whatever follows it: it ends at its closing quotation
/// mark, and nothing in it is one.
pub proof fn quoted_texts_are_told_apart(
    first: Seq<char>,
    second: Seq<char>,
    left: Seq<char>,
    right: Seq<char>,
)
    requires
        quoted(first) + left == quoted(second) + right,
    ensures
        first == second,
        left == right,
{
    let a = quoted(first) + left;
    let b = quoted(second) + right;
    assert(a.skip(1) =~= escaped(first) + seq!['"'] + left);
    assert(b.skip(1) =~= escaped(second) + seq!['"'] + right);
    lemma_quotes_end(first, second, left, right);
}

/// A text in which nothing has to be escaped is quoted as it is.
pub proof fn plain_texts_are_quoted_as_they_are(text: Seq<char>)
    requires
        forall|i: int|
            0 <= i < text.len() ==> (#[trigger] text[i]) != '"' && text[i] != '\\' && text[i] as int
                >= 0x20,
    ensures
        quoted(text) == seq!['"'] + text + seq!['"'],
    decreases text.len(),
{
    lemma_plain_escape(text);
}

proof fn lemma_plain_escape(text: Seq<char>)
    requires
        forall|i: int|
            0 <= i < text.len() ==> (#[trigger] text[i]) != '"' && text[i] != '\\' && text[i] as int
                >= 0x20,
    ensures
        escaped(text) == text,
    decreases text.len(),
{
    if text.len() > 0 {
        let shorter = text.drop_last();
        assert forall|i: int| 0 <= i < shorter.len() implies (#[trigger] shorter[i]) != '"'
            && shorter[i] != '\\' && shorter[i] as int >= 0x20 by {
            assert(shorter[i] == text[i]);
        }
        lemma_plain_escape(shorter);
        assert(text[text.len() - 1] == text.last());
        assert(escaped(text) =~= text);
    } else {
        assert(escaped(text) =~= text);
    }
}

/// An identifier is of the kind that its beginning says.
pub proof fn identifiers_begin_with_their_kind(rest: Seq<char>)
    ensures
        kind_of("patch:"@ + rest) == OperationKind::Patch,
        kind_of("checkout:"@ + rest) == OperationKind::Checkout,
        kind_of("checkin:"@ + rest) == OperationKind::Checkin,
        announced_asset("checkout:"@ + rest) is None,
        announced_asset("checkin:"@ + rest) is None,
{
    reveal_strlit("patch:");
    reveal_strlit("checkout:");
    reveal_strlit("checkin:");
    let a = "patch:"@ + rest;
    let b = "checkout:"@ + rest;
    let c = "checkin:"@ + rest;
    assert(a.take("patch:"@.len() as int) =~= "patch:"@);
    assert(b.take("checkout:"@.len() as int) =~= "checkout:"@);
    assert(c.take("checkin:"@.len() as int) =~= "checkin:"@);
    assert(b[0] == 'c');
    assert(c[0] == 'c');
    assert("patch:"@[0] == 'p');
    assert(c[5] == 'i');
    assert("checkout:"@[5] == 'o');
}

/// The identifiers of patches of different assets differ.
pub proof fn patches_of_different_assets_are_told_apart(
    first: u64,
    request: PatchView,
    second: u64,
    other: PatchView,
)
    requires
        patch_id(first, request) == patch_id(second, other),
    ensures
        first == second,
        patch_text(request) == patch_text(other),
{
    patch_id_names_its_asset(first, request);
    patch_id_names_its_asset(second, other);
    let stem = "patch:"@ + text::decimal_text(first as nat) + ":"@;
    assert(patch_id(first, request).skip(stem.len() as int) =~= patch_text(request));
    assert(patch_id(second, other).skip(stem.len() as int) =~= patch_text(other));
}

/// How a member goes on behind others, or begins the members.
spec fn lead(any: bool, key: Seq<char>) -> Seq<char> {
    (if any {
        ","@
    } else {
        Seq::empty()
    }) + "\""@ + key + "\":"@
}

spec fn from_model(any: bool, request: PatchView) -> Seq<char> {
    match request.model_id {
        Some(id) => lead(any, "model_id"@) + text::decimal_text(id as nat) + "}"@,
        None => "}"@,
    }
}

spec fn from_tag(any: bool, request: PatchView) -> Seq<char> {
    match request.asset_tag {
        Some(tag) => lead(any, "asset_tag"@) + quoted(tag) + from_model(true, request),
        None => from_model(any, request),
    }
}

spec fn from_serial(any: bool, request: PatchView) -> Seq<char> {
    match request.serial {
        Some(serial) => lead(any, "serial"@) + quoted(serial) + from_tag(true, request),
        None => from_tag(any, request),
    }
}

spec fn from_name(request: PatchView) -> Seq<char> {
    match request.name {
        Some(name) => lead(false, "name"@) + quoted(name) + from_serial(true, request),
        None => from_serial(false, request),
    }
}

proof fn lemma_member_begins_the_rest(
    members: Seq<char>,
    key: Seq<char>,
    value: Seq<char>,
    rest: Seq<char>,
)
    ensures
        with_member(members, key, value) + rest == members + (lead(members.len() > 0, key) + value
            + rest),
        with_member(members, key, value).len() > 0,
{
    reveal_strlit("\":");
    if members.len() == 0 {
        assert(members =~= Seq::<char>::empty());
    }
    assert(with_member(members, key, value) + rest =~= members + (lead(members.len() > 0, key)
        + value + rest));
}

proof fn lemma_patch_text_from_front(request: PatchView)
    ensures
        patch_text(request) == "{"@ + from_name(request),
{
    let none = Seq::<char>::empty();
    let name = with_text_member(none, "name"@, request.name);
    let serial = with_text_member(name, "serial"@, request.serial);
    let tag = with_text_member(serial, "asset_tag"@, request.asset_tag);
    let model = match request.model_id {
        Some(id) => with_member(tag, "model_id"@, text::decimal_text(id as nat)),
        None => tag,
    };
    let model_rest = from_model(tag.len() > 0, request);
    assert(model + "}"@ == tag + model_rest) by {
        if request.model_id is Some {
            let id = text::decimal_text(request.model_id->0 as nat);
            lemma_member_begins_the_rest(tag, "model_id"@, id, "}"@);
        }
    }
    let tag_rest = from_tag(serial.len() > 0, request);
    assert(tag + model_rest == serial + tag_rest) by {
        if request.asset_tag is Some {
            let value = quoted(request.asset_tag->0);
            lemma_member_begins_the_rest(serial, "asset_tag"@, value, model_rest);
        }
    }
    let serial_rest = from_serial(name.len() > 0, request);
    assert(serial + tag_rest == name + serial_rest) by {
        if request.serial is Some {
            let value = quoted(request.serial->0);
            lemma_member_begins_the_rest(name, "serial"@, value, tag_rest);
        }
    }
    assert(name + serial_rest == none + from_name(request)) by {
        if request.name is Some {
            let value = quoted(request.name->0);
            lemma_member_begins_the_rest(none, "name"@, value, serial_rest);
        }
    }
    assert(none + from_name(request) =~= from_name(request));
    assert("{"@ + model + "}"@ =~= "{"@ + (model + "}"@));
}

/// Whether the members go on with a key that begins with one of three letters, or end.
spec fn goes_on(any: bool, rest: Seq<char>, first: char, second: char, third: char) -> bool {
    let place: int = if any {
        2
    } else {
        1
    };
    ||| rest.len() == 1
    ||| rest.len() > place && (rest[place] == first || rest[place] == second || rest[place]
        == third)
}

proof fn lemma_members_go_on(any: bool, request: PatchView)
    ensures
        goes_on(any, from_model(any, request), 'm', 'm', 'm'),
        goes_on(any, from_tag(any, request), 'a', 'm', 'm'),
        goes_on(any, from_serial(any, request), 's', 'a', 'm'),
{
    reveal_strlit(",");
    reveal_strlit("\"");
    reveal_strlit("\":");
    reveal_strlit("}");
    reveal_strlit("serial");
    reveal_strlit("asset_tag");
    reveal_strlit("model_id");
    let place: int = if any {
        2
    } else {
        1
    };
    assert(lead(any, "serial"@)[place] == 's');
    assert(lead(any, "asset_tag"@)[place] == 'a');
    assert(lead(any, "model_id"@)[place] == 'm');
    if request.model_id is Some {
        assert(from_model(any, request)[place] == 'm');
    }
    if request.asset_tag is Some {
        assert(from_tag(any, request)[place] == 'a');
    }
    if request.serial is Some {
        assert(from_serial(any, request)[place] == 's');
    }
}

proof fn lemma_lead_differs(any: bool, key: Seq<char>, more: Seq<char>)
    requires
        key.len() > 0,
    ensures
        ({
            let rest = lead(any, key) + more;
            let place: int = if any {
                2
            } else {
                1
            };
            &&& rest.len() > 2
            &&& rest[place] == key[0]
        }),
{
    reveal_strlit(",");
    reveal_strlit("\"");
    reveal_strlit("\":");
    let place: int = if any {
        2
    } else {
        1
    };
    assert(lead(any, key)[place] == key[0]);
}

proof fn lemma_same_lead(lead: Seq<char>, left: Seq<char>, right: Seq<char>)
    requires
        lead + left == lead + right,
    ensures
        left == right,
{
    assert((lead + left).skip(lead.len() as int) =~= left);
    assert((lead + right).skip(lead.len() as int) =~= right);
}

proof fn lemma_models_are_told_apart(any: bool, first: PatchView, second: PatchView)
    requires
        from_model(any, first) == from_model(any, second),
    ensures
        first.model_id == second.model_id,
{
    reveal_strlit("model_id");
    reveal_strlit("}");
    let start = lead(any, "model_id"@);
    if first.model_id is Some && second.model_id is Some {
        let a = text::decimal_text(first.model_id->0 as nat);
        let b = text::decimal_text(second.model_id->0 as nat);
        assert(start + a + "}"@ =~= start + (a + "}"@));
        assert(start + b + "}"@ =~= start + (b + "}"@));
        lemma_same_lead(start, a + "}"@, b + "}"@);
        assert((a + "}"@).drop_last() =~= a);
        assert((b + "}"@).drop_last() =~= b);
        text::decimal_round_trip(first.model_id->0 as nat, u64::MAX as nat);
        text::decimal_round_trip(second.model_id->0 as nat, u64::MAX as nat);
    } else if first.model_id is Some {
        let a = text::decimal_text(first.model_id->0 as nat);
        assert(start + a + "}"@ =~= start + (a + "}"@));
        lemma_lead_differs(any, "model_id"@, a + "}"@);
    } else if second.model_id is Some {
        let b = text::decimal_text(second.model_id->0 as nat);
        assert(start + b + "}"@ =~= start + (b + "}"@));
        lemma_lead_differs(any, "model_id"@, b + "}"@);
    }
}

proof fn lemma_tags_are_told_apart(any: bool, first: PatchView, second: PatchView)
    requires
        from_tag(any, first) == from_tag(any, second),
    ensures
        first.asset_tag == second.asset_tag,
        first.model_id == second.model_id,
{
    reveal_strlit("asset_tag");
    let start = lead(any, "asset_tag"@);
    lemma_members_go_on(any, first);
    lemma_members_go_on(any, second);
    if first.asset_tag is Some {
        let more = quoted(first.asset_tag->0) + from_model(true, first);
        assert(from_tag(any, first) =~= start + more);
        lemma_lead_differs(any, "asset_tag"@, more);
    }
    if second.asset_tag is Some {
        let more = quoted(second.asset_tag->0) + from_model(true, second);
        assert(from_tag(any, second) =~= start + more);
        lemma_lead_differs(any, "asset_tag"@, more);
    }
    if first.asset_tag is Some && second.asset_tag is Some {
        let a = quoted(first.asset_tag->0) + from_model(true, first);
        let b = quoted(second.asset_tag->0) + from_model(true, second);
        lemma_same_lead(start, a, b);
        quoted_texts_are_told_apart(
            first.asset_tag->0,
            second.asset_tag->0,
            from_model(true, first),
            from_model(true, second),
        );
        lemma_models_are_told_apart(true, first, second);
    } else if first.asset_tag is None && second.asset_tag is None {
        lemma_models_are_told_apart(any, first, second);
    }
}

proof fn lemma_serials_are_told_apart(any: bool, first: PatchView, second: PatchView)
    requires
        from_serial(any, first) == from_serial(any, second),
    ensures
        first.serial == second.serial,
        first.asset_tag == second.asset_tag,
        first.model_id == second.model_id,
{
    reveal_strlit("serial");
    let start = lead(any, "serial"@);
    lemma_members_go_on(any, first);
    lemma_members_go_on(any, second);
    if first.serial is Some {
        let more = quoted(first.serial->0) + from_tag(true, first);
        assert(from_serial(any, first) =~= start + more);
        lemma_lead_differs(any, "serial"@, more);
    }
    if second.serial is Some {
        let more = quoted(second.serial->0) + from_tag(true, second);
        assert(from_serial(any, second) =~= start + more);
        lemma_lead_differs(any, "serial"@, more);
    }
    if first.serial is Some && second.serial is Some {
        let a = quoted(first.serial->0) + from_tag(true, first);
        let b = quoted(second.serial->0) + from_tag(true, second);
        lemma_same_lead(start, a, b);
        quoted_texts_are_told_apart(
            first.serial->0,
            second.serial->0,
            from_tag(true, first),
            from_tag(true, second),
        );
        lemma_tags_are_told_apart(true, first, second);
    } else if first.serial is None && second.serial is None {
        lemma_tags_are_told_apart(any, first, second);
    }
}

/// The identifier of a patch tells everything about it: patches that differ in the asset, or in any
/// field that they set, or in whether they set it, have different identifiers.
pub proof fn patches_are_told_apart(
    first: u64,
    request: PatchView,
    second: u64,
    other: PatchView,
)
    requires
        patch_id(first, request) == patch_id(second, other),
    ensures
        first == second,
        request.name == other.name,
        request.serial == other.serial,
        request.asset_tag == other.asset_tag,
        request.model_id == other.model_id,
{
    patches_of_different_assets_are_told_apart(first, request, second, other);
    lemma_patch_text_from_front(request);
    lemma_patch_text_from_front(other);
    lemma_same_lead("{"@, from_name(request), from_name(other));
    reveal_strlit("name");
    let start = lead(false, "name"@);
    lemma_members_go_on(false, request);
    lemma_members_go_on(false, other);
    if request.name is Some {
        let more = quoted(request.name->0) + from_serial(true, request);
        assert(from_name(request) =~= start + more);
        lemma_lead_differs(false, "name"@, more);
    }
    if other.name is Some {
        let more = quoted(other.name->0) + from_serial(true, other);
        assert(from_name(other) =~= start + more);
        lemma_lead_differs(false, "name"@, more);
    }
    if request.name is Some && other.name is Some {
        let a = quoted(request.name->0) + from_serial(true, request);
        let b = quoted(other.name->0) + from_serial(true, other);
        lemma_same_lead(start, a, b);
        quoted_texts_are_told_apart(
            request.name->0,
            other.name->0,
            from_serial(true, request),
            from_serial(true, other),
        );
        lemma_serials_are_told_apart(true, request, other);
    } else if request.name is None && other.name is None {
        lemma_serials_are_told_apart(false, request, other);
    }
}

} // verus!
