//! The command line: what `cdx` is asked to do before any directory is
//! shown.
use vstd::prelude::*;

use crate::text::{append_str, chars_of, string_from_chars};

verus! {

/// The command line: `-g` for a global search, `-h` for help, and the words
/// of the query.
pub struct Cli {
    pub grep: bool,
    pub help: (),
    pub query: Vec<String>,
}

/// The words joined by single spaces.
pub open spec fn joined(words: Seq<Seq<char>>) -> Seq<char>
    decreases words.len(),
{
    if words.len() == 0 {
        Seq::empty()
    } else if words.len() == 1 {
        words[0]
    } else {
        joined(words.drop_last()) + " "@ + words.last()
    }
}

pub open spec fn words_view(v: Seq<String>) -> Seq<Seq<char>> {
    v.map_values(|s: String| s@)
}

/// The query: the words of the command line joined by spaces.
pub fn join_query(words: &Vec<String>) -> (r: String)
    ensures
        r@ == joined(words_view(words@)),
{
    let mut v: Vec<char> = Vec::new();
    let mut i: usize = 0;
    while i < words.len()
        invariant
            i <= words@.len(),
            v@ == joined(words_view(words@).take(i as int)),
        decreases words.len() - i,
    {
        proof {
            assert(words_view(words@).take(i + 1).drop_last() =~= words_view(words@).take(i as int));
            assert(words_view(words@).take(i + 1).last() == words@[i as int]@);
        }
        if i > 0 {
            append_str(&mut v, " ");
        } else {
            assert(words_view(words@).take(1)[0] == words@[0]@);
            assert(v@ + words@[0]@ =~= words@[0]@);
        }
        append_str(&mut v, words[i].as_str());
        i = i + 1;
    }
    assert(words_view(words@).take(words@.len() as int) =~= words_view(words@));
    string_from_chars(v.as_slice())
}

/// What `cdx` does first.
pub enum StartPlan {
    /// A global search for the query.
    GlobalSearch(String),
    /// Print the home directory.
    Home,
    /// Print the query if it names a directory, else zoxide's best match for
    /// it, else open the navigator with it.
    PathOrZoxide(String),
    /// Open the navigator, with no query.
    Navigator,
}

/// What the command line asks: `-g` searches globally; the query `~` or
/// `...` names the home directory; another query is tried as a directory,
/// then with zoxide; no query opens the navigator.
pub open spec fn plan_matches(p: StartPlan, grep: bool, query: Seq<char>) -> bool {
    if grep {
        p matches StartPlan::GlobalSearch(q) && q@ == query
    } else if query == "~"@ || query == "..."@ {
        p is Home
    } else if query.len() > 0 {
        p matches StartPlan::PathOrZoxide(q) && q@ == query
    } else {
        p is Navigator
    }
}

/// The first step for the command line `cli`.
pub fn start_plan(cli: &Cli) -> (r: StartPlan)
    ensures
        plan_matches(r, cli.grep, joined(words_view(cli.query@))),
{
    let query = join_query(&cli.query);
    if cli.grep {
        return StartPlan::GlobalSearch(query);
    }
    let qc = chars_of(query.as_str());
    let tilde = chars_of("~");
    let dots = chars_of("...");
    if crate::text::chars_eq(qc.as_slice(), tilde.as_slice()) || crate::text::chars_eq(qc.as_slice(), dots.as_slice()) {
        return StartPlan::Home;
    }
    if qc.len() > 0 {
        StartPlan::PathOrZoxide(query)
    } else {
        StartPlan::Navigator
    }
}

} // verus!
