//! The line that stores one credential.

use vstd::prelude::*;
use vstd::string::StringExecFns;
use crate::policy::GenerationPolicy;

verus! {

/// The line that stores a credential: service, user name and password with
/// a vertical bar between them and a line feed at the end. The fields are
/// written as they are, so a bar or a line feed inside one is read back as
/// a boundary.
pub open spec fn record_line(service: Seq<char>, username: Seq<char>, password: Seq<char>) -> Seq<
    char,
> {
    service + seq!['|'] + username + seq!['|'] + password + seq!['\n']
}

/// Whether `c` marks a boundary in a stored line.
pub open spec fn is_boundary(c: char) -> bool {
    c == '|' || c == '\n'
}

/// The line that stores a credential.
pub fn format_record(service: &str, username: &str, password: &str) -> (line: String)
    ensures
        line@ == record_line(service@, username@, password@),
{
    proof {
        reveal_strlit("|");
        reveal_strlit("\n");
    }
    let mut line = String::from_str(service);
    line.append("|");
    assert(line@ =~= service@ + seq!['|']);
    line.append(username);
    line.append("|");
    assert(line@ =~= service@ + seq!['|'] + username@ + seq!['|']);
    line.append(password);
    line.append("\n");
    assert(line@ =~= record_line(service@, username@, password@));
    line
}

/// No policy admits a character that marks a boundary in a stored line, so
/// a generated password can always be read back whole.
pub proof fn lemma_admitted_is_no_boundary(policy: GenerationPolicy, c: char)
    requires
        policy.admits(c),
    ensures
        !is_boundary(c),
{
}

} // verus!
