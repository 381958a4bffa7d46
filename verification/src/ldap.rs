use crate::schema::api::UserResponse;
use vstd::prelude::*;
use vstd::string::StringExecFns;
use vstd::string::StringSliceAdditionalSpecFns;
use vstd::utf8::encode_utf8;

verus! {

/// The entry under which the directory keeps its users.
pub const USERS_BASE: &'static str = "cn=users,cn=accounts,dc=csh,dc=rit,dc=edu";

/// The filter for the active members who are not new members.
pub const ACTIVE_UPPERCLASSMEN_FILTER: &'static str =
    "(&(memberOf=*active*)(!(memberOf=*intromember*)))";

/// The group of the new members.
pub const INTRO_MEMBERS_GROUP: &'static str = "intromembers";

/// A name with a blank in it is never asked of the directory.
pub open spec fn has_blank(name: Seq<char>) -> bool {
    encode_utf8(name).contains(32u8)
}

/// One term `(uid=..)` for each of the users, in order, but for those whose
/// name has a blank.
pub open spec fn uid_terms(users: Seq<String>) -> Seq<char>
    decreases users.len(),
{
    if users.len() == 0 {
        Seq::empty()
    } else if has_blank(users.last()@) {
        uid_terms(users.drop_last())
    } else {
        uid_terms(users.drop_last()) + "(uid="@ + users.last()@ + ")"@
    }
}

/// The filter that finds the users with these names.
pub open spec fn users_filter_text(users: Seq<String>) -> Seq<char> {
    "(|"@ + uid_terms(users) + ")"@
}

fn name_has_blank(name: &str) -> (r: bool)
    ensures
        r == has_blank(name@),
{
    let bytes = name.as_bytes();
    let mut i: usize = 0;
    while i < bytes.len()
        invariant
            i <= bytes.len(),
            bytes@ == encode_utf8(name@),
            forall|j: int| 0 <= j < i ==> bytes@[j] != 32u8,
        decreases bytes.len() - i,
    {
        if bytes[i] == 32 {
            return true;
        }
        i += 1;
    }
    false
}

/// The filter that finds the users with these names; `None` if there is
/// nobody to find, and the directory need not be asked.
pub fn users_filter(users: &[String]) -> (r: Option<String>)
    ensures
        match r {
            Some(filter) => users@.len() > 0 && filter@ == users_filter_text(users@),
            None => users@.len() == 0,
        },
{
    if users.len() == 0 {
        return None;
    }
    let mut filter = String::from_str("(|");
    let mut i: usize = 0;
    assert(uid_terms(users@.take(0)) =~= Seq::<char>::empty());
    assert("(|"@ + Seq::<char>::empty() =~= "(|"@);
    while i < users.len()
        invariant
            i <= users.len(),
            filter@ == "(|"@ + uid_terms(users@.take(i as int)),
        decreases users.len() - i,
    {
        proof {
            let next = users@.take(i + 1);
            assert(next.drop_last() == users@.take(i as int));
            assert(next.last() == users@[i as int]);
        }
        if !name_has_blank(users[i].as_str()) {
            let ghost before = uid_terms(users@.take(i as int));
            filter.append("(uid=");
            filter.append(users[i].as_str());
            filter.append(")");
            assert(filter@ =~= "(|"@ + (before + "(uid="@ + users@[i as int]@ + ")"@));
        }
        i += 1;
    }
    assert(users@.take(users@.len() as int) == users@);
    filter.append(")");
    Some(filter)
}

/// The filter that finds the members of the groups whose name holds `group`.
pub fn group_filter(group: &str) -> (filter: String)
    ensures
        filter@ == "memberOf=*"@ + group@ + "*"@,
{
    String::from_str("memberOf=*").concat(group).concat("*")
}

/// The filter that finds the user `uid`.
pub fn user_filter(uid: &str) -> (filter: String)
    ensures
        filter@ == "(uid="@ + uid@ + ")"@,
{
    String::from_str("(uid=").concat(uid).concat(")")
}

/// The filter that finds the users whose name or common name holds `query`.
pub fn search_filter(query: &str) -> (filter: String)
    ensures
        filter@ == "(|(uid=*"@ + query@ + "*)(cn=*"@ + query@ + "*))"@,
{
    String::from_str("(|(uid=*").concat(query).concat("*)(cn=*").concat(query).concat("*))")
}

/// Whether the directory knows all of the users that were asked of it: it
/// gave as many as were asked.
pub fn users_exist(users: &[String], found: &[UserResponse]) -> (r: bool)
    ensures
        r == (users@.len() == found@.len()),
{
    users.len() == found.len()
}

} // verus!
