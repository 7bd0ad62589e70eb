//! Admission of the typed query and the fixed list of directories the
//! launcher searches. A query is searched only when, after trimming
//! surrounding whitespace, at least two bytes of text remain.

use vstd::prelude::*;
use vstd::string::StringExecFns;

verus! {

/// The characters of `s` with leading and trailing whitespace
/// removed, as `str::trim` removes it.
pub uninterp spec fn trimmed_of(s: Seq<char>) -> Seq<char>;

/// Relies on `str::trim`: it returns the slice with leading and
/// trailing whitespace removed, so the result is `trimmed_of` the
/// input and no longer than it; being a slice held in memory, its
/// byte length fits in `usize`.
#[verifier::external_body]
fn str_trim<'a>(s: &'a str) -> (r: &'a str)
    ensures
        r@ == trimmed_of(s@),
        r@.len() <= s@.len(),
        vstd::utf8::encode_utf8(r@).len() <= usize::MAX,
{
    s.trim()
}

/// True when the query, once trimmed, still holds at least two bytes
/// of text; shorter queries are not searched.
pub open spec fn query_long_enough(s: Seq<char>) -> bool {
    vstd::utf8::encode_utf8(trimmed_of(s)).len() >= 2
}

/// Decides whether a typed query is worth searching: at least two
/// bytes must remain after trimming surrounding whitespace.
pub fn query_accepted(s: &str) -> (r: bool)
    ensures
        r == query_long_enough(s@),
{
    let t = str_trim(s);
    t.len() >= 2
}

/// Builds the list of directories the launcher scans for shortcuts:
/// the user's desktop and the per-user and machine-wide Start Menu
/// program folders, derived from the three environment values the
/// caller hands in.
pub fn search_dirs(user_profile: &str, app_data: &str, program_data: &str) -> (r: Vec<String>)
    ensures
        r@.len() == 3,
        r@[0]@ == user_profile@ + "\\Desktop"@,
        r@[1]@ == app_data@ + "\\Microsoft\\Windows\\Start Menu\\Programs"@,
        r@[2]@ == program_data@ + "\\Microsoft\\Windows\\Start Menu\\Programs"@,
{
    let mut desktop = String::from_str(user_profile);
    desktop.append("\\Desktop");
    let mut user_programs = String::from_str(app_data);
    user_programs.append("\\Microsoft\\Windows\\Start Menu\\Programs");
    let mut machine_programs = String::from_str(program_data);
    machine_programs.append("\\Microsoft\\Windows\\Start Menu\\Programs");
    let mut r: Vec<String> = Vec::new();
    r.push(desktop);
    r.push(user_programs);
    r.push(machine_programs);
    r
}

} // verus!
