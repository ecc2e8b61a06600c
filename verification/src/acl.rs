//! Access control: who may use the files of the service, and how that is checked.

use vstd::prelude::*;

use crate::text;

verus! {

/// The access that files and directories of the service give: everything to the system and to
/// the administrators, nothing inherited.
pub const DATA_ACL_SDDL: &'static str = "D:P(A;OICI;GA;;;SY)(A;OICI;GA;;;BA)";

/// The access that the service's pipe grants: to the system and to administrators.
pub const ADMIN_PIPE_SDDL: &'static str = "D:P(A;;GA;;;SY)(A;;GA;;;BA)";

/// Why the access to a file is not as it should be.
#[derive(Clone, Copy, Debug, PartialEq, Eq, Structural)]
pub enum AclFault {
    MissingPrefix,
    NoEntries,
    NotProtected,
    TrailingData,
    Unterminated,
    FieldCount,
    NotAllow,
    NotCanonical,
    UnauthorizedPrincipal,
    DuplicatePrincipal,
    Incomplete,
}

/// The text of an [`AclFault`].
pub open spec fn acl_fault_text(fault: AclFault) -> Seq<char> {
    match fault {
        AclFault::MissingPrefix => "missing DACL prefix"@,
        AclFault::NoEntries => "DACL contains no ACEs"@,
        AclFault::NotProtected => "DACL is not protected"@,
        AclFault::TrailingData => "DACL contains trailing data"@,
        AclFault::Unterminated => "ACE is unterminated"@,
        AclFault::FieldCount => "ACE does not contain six fields"@,
        AclFault::NotAllow => "DACL contains a non-allow ACE"@,
        AclFault::NotCanonical => "ACE is not a canonical full-file allow"@,
        AclFault::UnauthorizedPrincipal => "DACL contains an unauthorized principal"@,
        AclFault::DuplicatePrincipal => "DACL contains a duplicate required principal"@,
        AclFault::Incomplete => "DACL must contain exactly SYSTEM and Administrators"@,
    }
}

impl AclFault {
    /// Describes the fault.
    pub fn message(&self) -> (message: String)
        ensures
            message@ == acl_fault_text(*self),
    {
        match self {
            AclFault::MissingPrefix => "missing DACL prefix".to_owned(),
            AclFault::NoEntries => "DACL contains no ACEs".to_owned(),
            AclFault::NotProtected => "DACL is not protected".to_owned(),
            AclFault::TrailingData => "DACL contains trailing data".to_owned(),
            AclFault::Unterminated => "ACE is unterminated".to_owned(),
            AclFault::FieldCount => "ACE does not contain six fields".to_owned(),
            AclFault::NotAllow => "DACL contains a non-allow ACE".to_owned(),
            AclFault::NotCanonical => "ACE is not a canonical full-file allow".to_owned(),
            AclFault::UnauthorizedPrincipal =>
                "DACL contains an unauthorized principal".to_owned(),
            AclFault::DuplicatePrincipal =>
                "DACL contains a duplicate required principal".to_owned(),
            AclFault::Incomplete =>
                "DACL must contain exactly SYSTEM and Administrators".to_owned(),
        }
    }
}

/// The two who may use the files.
#[derive(Clone, Copy, Debug, PartialEq, Eq, Structural)]
pub enum Principal {
    System,
    Administrators,
}

/// Whom an entry gives full access to a file, if it does just that.
pub open spec fn entry_principal(fields: Seq<Seq<char>>) -> Result<Principal, AclFault> {
    if fields.len() != 6 {
        Err(AclFault::FieldCount)
    } else if fields[0] != "A"@ {
        Err(AclFault::NotAllow)
    } else if fields[1].len() != 0 || fields[2] != "FA"@ || fields[3].len() != 0 || fields[4].len()
        != 0 {
        Err(AclFault::NotCanonical)
    } else if fields[5] == "SY"@ {
        Ok(Principal::System)
    } else if fields[5] == "BA"@ {
        Ok(Principal::Administrators)
    } else {
        Err(AclFault::UnauthorizedPrincipal)
    }
}

/// Whether the entries from here on, together with those before, give access to the two and to
/// nobody else. `system` and `administrators` tell who has been given access so far.
pub open spec fn checked_entries(rest: Seq<char>, system: bool, administrators: bool) -> Result<
    (),
    AclFault,
>
    decreases rest.len(),
{
    let end = text::find_from(rest, ')', 0);
    if rest.len() == 0 {
        if system && administrators {
            Ok(())
        } else {
            Err(AclFault::Incomplete)
        }
    } else if rest[0] != '(' {
        Err(AclFault::TrailingData)
    } else if end < 1 || end >= rest.len() {
        Err(AclFault::Unterminated)
    } else {
        match entry_principal(text::split(rest.subrange(1, end), ';')) {
            Err(fault) => Err(fault),
            Ok(Principal::System) => if system {
                Err(AclFault::DuplicatePrincipal)
            } else {
                checked_entries(rest.skip(end + 1), true, administrators)
            },
            Ok(Principal::Administrators) => if administrators {
                Err(AclFault::DuplicatePrincipal)
            } else {
                checked_entries(rest.skip(end + 1), system, true)
            },
        }
    }
}

/// Whether the access to a file is as it should be.
pub open spec fn checked_acl(sddl: Seq<char>) -> Result<(), AclFault> {
    let dacl = sddl.skip(2);
    let first = text::find_from(dacl, '(', 0);
    if !"D:"@.is_prefix_of(sddl) {
        Err(AclFault::MissingPrefix)
    } else if first < 0 || first >= dacl.len() {
        Err(AclFault::NoEntries)
    } else if first == 0 || dacl[0] != 'P' {
        Err(AclFault::NotProtected)
    } else {
        checked_entries(dacl.skip(first), false, false)
    }
}

fn read_principal(fields: &Vec<String>) -> (result: Result<Principal, AclFault>)
    ensures
        result == entry_principal(fields.deep_view()),
{
    if fields.len() != 6 {
        return Err(AclFault::FieldCount);
    }
    if !text::same_text(fields[0].as_str(), "A") {
        return Err(AclFault::NotAllow);
    }
    let flags = text::to_chars(fields[1].as_str());
    let object = text::to_chars(fields[3].as_str());
    let inherited = text::to_chars(fields[4].as_str());
    if flags.len() != 0 || !text::same_text(fields[2].as_str(), "FA") || object.len() != 0
        || inherited.len() != 0 {
        return Err(AclFault::NotCanonical);
    }
    if text::same_text(fields[5].as_str(), "SY") {
        return Ok(Principal::System);
    }
    if text::same_text(fields[5].as_str(), "BA") {
        return Ok(Principal::Administrators);
    }
    Err(AclFault::UnauthorizedPrincipal)
}

/// Checks the access to a file, written down in the security descriptor definition language.
pub fn validate_file_acl_contract(sddl: &str) -> (result: Result<(), AclFault>)
    ensures
        result == checked_acl(sddl@),
{
    let chars = text::to_chars(sddl);
    let prefix = text::to_chars("D:");
    proof {
        reveal_strlit("D:");
    }
    if !text::starts_with(chars.as_slice(), prefix.as_slice()) {
        return Err(AclFault::MissingPrefix);
    }
    let length: usize = chars.len();
    let ghost dacl = chars@.skip(2);
    proof {
        text::lemma_find_shift(chars@, '(', 2);
    }
    let first: usize = text::find_char(chars.as_slice(), '(', 2);
    if first >= length {
        return Err(AclFault::NoEntries);
    }
    if first == 2 || chars[2] != 'P' {
        return Err(AclFault::NotProtected);
    }
    let mut system = false;
    let mut administrators = false;
    let mut from: usize = first;
    proof {
        assert(dacl.skip(first - 2) =~= chars@.skip(first as int));
    }
    while from < length
        invariant
            first <= from <= length,
            length == chars@.len(),
            checked_acl(sddl@) == checked_entries(
                chars@.skip(from as int),
                system,
                administrators,
            ),
        decreases length - from,
    {
        let ghost rest = chars@.skip(from as int);
        if chars[from] != '(' {
            return Err(AclFault::TrailingData);
        }
        proof {
            text::lemma_find_shift(chars@, ')', from as int);
            text::lemma_find_from(rest, ')', 0);
        }
        let end: usize = text::find_char(chars.as_slice(), ')', from);
        if end >= length {
            return Err(AclFault::Unterminated);
        }
        let body = text::slice_chars(chars.as_slice(), from + 1, end);
        proof {
            assert(body@ =~= rest.subrange(1, end - from));
            assert(rest.skip(end - from + 1) =~= chars@.skip(end + 1));
        }
        let fields = text::split_chars(body.as_slice(), ';');
        match read_principal(&fields) {
            Err(fault) => {
                return Err(fault);
            },
            Ok(Principal::System) => {
                if system {
                    return Err(AclFault::DuplicatePrincipal);
                }
                system = true;
            },
            Ok(Principal::Administrators) => {
                if administrators {
                    return Err(AclFault::DuplicatePrincipal);
                }
                administrators = true;
            },
        }
        from = end + 1;
    }
    if system && administrators {
        Ok(())
    } else {
        Err(AclFault::Incomplete)
    }
}

/// The entry that gives full access to a file.
pub open spec fn full_access(principal: Principal) -> Seq<char> {
    match principal {
        Principal::System => "(A;;FA;;;SY)"@,
        Principal::Administrators => "(A;;FA;;;BA)"@,
    }
}

proof fn lemma_entry_is_full_access(rest: Seq<char>, end: int, principal: Principal)
    requires
        1 <= end < rest.len(),
        rest[0] == '(',
        rest[end] == ')',
        entry_principal(text::split(rest.subrange(1, end), ';')) == Ok::<Principal, AclFault>(
            principal,
        ),
    ensures
        rest == full_access(principal) + rest.skip(end + 1),
{
    let body = rest.subrange(1, end);
    let fields = text::split(body, ';');
    text::split_parts_make_the_text(body, ';');
    reveal_strlit("A");
    reveal_strlit("FA");
    reveal_strlit("SY");
    reveal_strlit("BA");
    reveal_strlit("(A;;FA;;;SY)");
    reveal_strlit("(A;;FA;;;BA)");
    let separator = seq![';'];
    let last = if principal == Principal::System {
        "SY"@
    } else {
        "BA"@
    };
    let named = seq!["A"@, Seq::empty(), "FA"@, Seq::empty(), Seq::empty(), last];
    assert(fields[1] =~= Seq::empty());
    assert(fields[3] =~= Seq::empty());
    assert(fields[4] =~= Seq::empty());
    assert(fields =~= named);
    let n5 = named.drop_last();
    let n4 = n5.drop_last();
    let n3 = n4.drop_last();
    let n2 = n3.drop_last();
    let n1 = n2.drop_last();
    assert(n1 =~= seq!["A"@]);
    assert(text::joined(n1, separator) == "A"@);
    assert(text::joined(n2, separator) =~= "A"@ + separator);
    assert(text::joined(n3, separator) =~= "A"@ + separator + separator + "FA"@);
    assert(text::joined(n4, separator) =~= "A"@ + separator + separator + "FA"@ + separator);
    assert(text::joined(n5, separator) =~= "A"@ + separator + separator + "FA"@ + separator
        + separator);
    assert(text::joined(named, separator) =~= "A"@ + separator + separator + "FA"@ + separator
        + separator + separator + last);
    assert(rest =~= seq!['('] + body + seq![')'] + rest.skip(end + 1));
    assert(full_access(principal) =~= seq!['('] + body + seq![')']);
}

proof fn lemma_checked_entries(rest: Seq<char>, system: bool, administrators: bool)
    requires
        checked_entries(rest, system, administrators) is Ok,
    ensures
        system && administrators ==> rest.len() == 0,
        system && !administrators ==> rest == full_access(Principal::Administrators),
        !system && administrators ==> rest == full_access(Principal::System),
        !system && !administrators ==> rest == full_access(Principal::System) + full_access(
            Principal::Administrators,
        ) || rest == full_access(Principal::Administrators) + full_access(Principal::System),
    decreases rest.len(),
{
    if rest.len() > 0 {
        text::lemma_find_from(rest, ')', 0);
        let end = text::find_from(rest, ')', 0);
        let principal = entry_principal(text::split(rest.subrange(1, end), ';'))->Ok_0;
        lemma_entry_is_full_access(rest, end, principal);
        let tail = rest.skip(end + 1);
        if principal == Principal::System {
            lemma_checked_entries(tail, true, administrators);
        } else {
            lemma_checked_entries(tail, system, true);
        }
        if tail.len() == 0 {
            assert(full_access(principal) + tail =~= full_access(principal));
        }
    }
}

/// Access that is accepted is given to the system and to the administrators, full and to the file
/// itself, and to nobody else: apart from the flags, which say that nothing is inherited, the text
/// is determined up to the order of the two entries.
pub proof fn accepted_access_is_exact(sddl: Seq<char>)
    requires
        checked_acl(sddl) is Ok,
    ensures
        ({
            let dacl = sddl.skip(2);
            let first = text::find_from(dacl, '(', 0);
            let system = full_access(Principal::System);
            let administrators = full_access(Principal::Administrators);
            &&& "D:"@.is_prefix_of(sddl)
            &&& 0 < first < dacl.len()
            &&& dacl[0] == 'P'
            &&& dacl.skip(first) == system + administrators || dacl.skip(first) == administrators
                + system
        }),
{
    let dacl = sddl.skip(2);
    let first = text::find_from(dacl, '(', 0);
    lemma_checked_entries(dacl.skip(first), false, false);
}

proof fn lemma_found_behind(before: Seq<char>, needle: char, after: Seq<char>)
    requires
        !before.contains(needle),
    ensures
        text::find_from(before + seq![needle] + after, needle, 0) == before.len(),
        text::find_from(before, needle, 0) == before.len(),
{
    let whole = before + seq![needle] + after;
    text::lemma_find_from(whole, needle, 0);
    text::lemma_find_from(before, needle, 0);
    let found = text::find_from(whole, needle, 0);
    assert(whole[before.len() as int] == needle);
    if found < before.len() {
        assert(whole[found] == before[found]);
        assert(before.contains(before[found]));
    }
    let none = text::find_from(before, needle, 0);
    if none < before.len() {
        assert(before.contains(before[none]));
    }
}

proof fn lemma_split_first(before: Seq<char>, after: Seq<char>)
    requires
        !before.contains(';'),
    ensures
        text::split(before + seq![';'] + after, ';') == seq![before] + text::split(after, ';'),
        text::split(before, ';') == seq![before],
{
    let whole = before + seq![';'] + after;
    lemma_found_behind(before, ';', after);
    assert(whole.take(before.len() as int) =~= before);
    assert(whole.skip(before.len() as int + 1) =~= after);
}

proof fn lemma_full_access_fields(principal: Seq<char>)
    requires
        !principal.contains(';'),
    ensures
        text::split(
            seq!['A', ';', ';', 'F', 'A', ';', ';', ';'] + principal,
            ';',
        ) == seq![
            seq!['A'],
            Seq::<char>::empty(),
            seq!['F', 'A'],
            Seq::<char>::empty(),
            Seq::<char>::empty(),
            principal,
        ],
{
    let none = Seq::<char>::empty();
    let p5 = none + seq![';'] + principal;
    let p4 = none + seq![';'] + p5;
    let p3 = seq!['F', 'A'] + seq![';'] + p4;
    let p2 = none + seq![';'] + p3;
    let p1 = seq!['A'] + seq![';'] + p2;
    lemma_split_first(principal, none);
    lemma_split_first(none, principal);
    lemma_split_first(none, p5);
    lemma_split_first(seq!['F', 'A'], p4);
    lemma_split_first(none, p3);
    lemma_split_first(seq!['A'], p2);
    assert(p1 =~= seq!['A', ';', ';', 'F', 'A', ';', ';', ';'] + principal);
    assert(text::split(p1, ';') =~= seq![
        seq!['A'],
        none,
        seq!['F', 'A'],
        none,
        none,
        principal,
    ]);
}

proof fn lemma_full_access_is_read(
    principal: Principal,
    rest: Seq<char>,
    system: bool,
    administrators: bool,
)
    requires
        principal == Principal::System ==> !system,
        principal == Principal::Administrators ==> !administrators,
    ensures
        checked_entries(full_access(principal) + rest, system, administrators) == checked_entries(
            rest,
            system || principal == Principal::System,
            administrators || principal == Principal::Administrators,
        ),
{
    reveal_strlit("(A;;FA;;;SY)");
    reveal_strlit("(A;;FA;;;BA)");
    reveal_strlit("A");
    reveal_strlit("FA");
    reveal_strlit("SY");
    reveal_strlit("BA");
    let name = match principal {
        Principal::System => "SY"@,
        Principal::Administrators => "BA"@,
    };
    let inner = seq!['A', ';', ';', 'F', 'A', ';', ';', ';'] + name;
    let whole = full_access(principal) + rest;
    assert(full_access(principal) =~= seq!['('] + inner + seq![')']);
    assert(whole =~= (seq!['('] + inner) + seq![')'] + rest);
    assert(!(seq!['('] + inner).contains(')'));
    lemma_found_behind(seq!['('] + inner, ')', rest);
    assert(whole.subrange(1, 11) =~= inner);
    assert(whole.skip(12) =~= rest);
    lemma_full_access_fields(name);
    assert("A"@ =~= seq!['A']);
    assert("FA"@ =~= seq!['F', 'A']);
    assert("SY"@[0] == 'S');
    assert("BA"@[0] == 'B');
}

/// A protected list that gives full access to the system and to the administrators, in either order,
/// and to nobody else, is accepted, whatever other flags it has.
pub proof fn exact_access_is_accepted(flags: Seq<char>)
    requires
        !flags.contains('('),
    ensures
        checked_acl(
            "D:"@ + seq!['P'] + flags + full_access(Principal::System) + full_access(
                Principal::Administrators,
            ),
        ) is Ok,
        checked_acl(
            "D:"@ + seq!['P'] + flags + full_access(Principal::Administrators) + full_access(
                Principal::System,
            ),
        ) is Ok,
{
    let system = full_access(Principal::System);
    let administrators = full_access(Principal::Administrators);
    let none = Seq::<char>::empty();
    lemma_full_access_is_read(Principal::System, administrators + none, false, false);
    lemma_full_access_is_read(Principal::Administrators, none, true, false);
    lemma_full_access_is_read(Principal::Administrators, system + none, false, false);
    lemma_full_access_is_read(Principal::System, none, false, true);
    assert(system + (administrators + none) =~= system + administrators);
    assert(administrators + (system + none) =~= administrators + system);
    lemma_entries_are_checked(flags, system + administrators);
    lemma_entries_are_checked(flags, administrators + system);
    assert("D:"@ + seq!['P'] + flags + system + administrators =~= "D:"@ + seq!['P'] + flags + (
    system + administrators));
    assert("D:"@ + seq!['P'] + flags + administrators + system =~= "D:"@ + seq!['P'] + flags + (
    administrators + system));
    reveal_strlit("(A;;FA;;;SY)");
    reveal_strlit("(A;;FA;;;BA)");
}

proof fn lemma_entries_are_checked(flags: Seq<char>, entries: Seq<char>)
    requires
        !flags.contains('('),
        entries.len() > 0,
        entries[0] == '(',
    ensures
        checked_acl("D:"@ + seq!['P'] + flags + entries) == checked_entries(entries, false, false),
{
    reveal_strlit("D:");
    let sddl = "D:"@ + seq!['P'] + flags + entries;
    let dacl = sddl.skip(2);
    assert("D:"@.is_prefix_of(sddl)) by {
        assert(sddl.take(2) =~= "D:"@);
    }
    let before = seq!['P'] + flags;
    assert(dacl =~= before + seq!['('] + entries.skip(1));
    assert(!before.contains('(')) by {
        if before.contains('(') {
            let k = choose|k: int| 0 <= k < before.len() && before[k] == '(';
            if k > 0 {
                assert(flags[k - 1] == '(');
                assert(flags.contains('('));
            }
        }
    }
    lemma_found_behind(before, '(', entries.skip(1));
    assert(dacl.skip(before.len() as int) =~= entries);
}

/// An entry gives full access to one of the two that may have it, or says what is wrong with it.
pub proof fn entries_give_full_access_to_known_principals(fields: Seq<Seq<char>>)
    ensures
        entry_principal(fields) is Ok <==> {
            &&& fields.len() == 6
            &&& fields[0] == "A"@
            &&& fields[1].len() == 0
            &&& fields[2] == "FA"@
            &&& fields[3].len() == 0
            &&& fields[4].len() == 0
            &&& fields[5] == "SY"@ || fields[5] == "BA"@
        },
        entry_principal(fields) == Ok::<Principal, AclFault>(Principal::System) ==> fields[5]
            == "SY"@,
        entry_principal(fields) == Ok::<Principal, AclFault>(Principal::Administrators)
            ==> fields[5] == "BA"@,
        fields.len() != 6 ==> entry_principal(fields) == Err::<Principal, AclFault>(
            AclFault::FieldCount,
        ),
        fields.len() == 6 && fields[0] != "A"@ ==> entry_principal(fields) == Err::<
            Principal,
            AclFault,
        >(AclFault::NotAllow),
{
}

} // verus!
