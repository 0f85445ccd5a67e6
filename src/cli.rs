//! The command-line surface of the snippet manager, and how it reads a
//! comma-separated list of tags.

use vstd::prelude::*;
use crate::text::{chars_of, string_from_range};

verus! {

/// Arguments of the snippet manager.
#[derive(Debug, Clone)]
pub struct TypelyArgs {
    pub command: TypelyCommand,
    /// Verbose output.
    pub verbose: bool,
    /// Database file path.
    pub database: Option<String>,
}

/// What the snippet manager is asked to do.
#[derive(Debug, Clone)]
pub enum TypelyCommand {
    /// Add a new snippet; tags are comma-separated.
    Add { trigger: String, replacement: String, tags: Option<String> },
    /// Remove a snippet by trigger.
    Remove { trigger: String },
    /// List snippets.
    List {
        search: Option<String>,
        active: bool,
        inactive: bool,
        tags: Option<String>,
        limit: Option<u32>,
        sort: String,
        order: String,
    },
    /// Show a snippet's details.
    Show { trigger: String },
    /// Update a snippet.
    Update {
        trigger: String,
        replacement: Option<String>,
        new_trigger: Option<String>,
        tags: Option<String>,
        activate: bool,
        deactivate: bool,
    },
    /// Import snippets from a JSON file.
    Import { file: String, overwrite: bool },
    /// Export snippets to a JSON file.
    Export { file: String, inactive: bool, tags: Option<String> },
    /// Expand a trigger.
    Expand { trigger: String },
    /// Search snippets.
    Search { query: String, limit: u32 },
    /// Show statistics.
    Stats,
}

/// Whether `c` has the Unicode `White_Space` property.
pub uninterp spec fn white_space(c: char) -> bool;

/// Relies on `char::is_whitespace`: whether `c` has the Unicode `White_Space`
/// property.
#[verifier::external_body]
fn is_white_space(c: char) -> (r: bool)
    ensures
        r == white_space(c),
{
    c.is_whitespace()
}

/// The pieces of `s` between commas, in order: `n` commas make `n + 1` pieces.
pub open spec fn comma_pieces(s: Seq<char>) -> Seq<Seq<char>>
    decreases s.len(),
{
    if s.len() == 0 {
        seq![Seq::<char>::empty()]
    } else {
        let p = comma_pieces(s.drop_last());
        if s.last() == ',' {
            p.push(Seq::<char>::empty())
        } else {
            p.update(p.len() - 1, p.last().push(s.last()))
        }
    }
}

/// `s` without its leading white space.
pub open spec fn trim_start(s: Seq<char>) -> Seq<char>
    decreases s.len(),
{
    if s.len() > 0 && white_space(s[0]) {
        trim_start(s.drop_first())
    } else {
        s
    }
}

/// `s` without its trailing white space.
pub open spec fn trim_end(s: Seq<char>) -> Seq<char>
    decreases s.len(),
{
    if s.len() > 0 && white_space(s.last()) {
        trim_end(s.drop_last())
    } else {
        s
    }
}

/// `s` without leading or trailing white space.
pub open spec fn trimmed(s: Seq<char>) -> Seq<char> {
    trim_end(trim_start(s))
}

/// The trimmed pieces that are not empty, in order.
pub open spec fn tags_of(pieces: Seq<Seq<char>>) -> Seq<Seq<char>>
    decreases pieces.len(),
{
    if pieces.len() == 0 {
        Seq::empty()
    } else {
        let t = tags_of(pieces.drop_last());
        let x = trimmed(pieces.last());
        if x.len() > 0 {
            t.push(x)
        } else {
            t
        }
    }
}

proof fn lemma_comma_pieces_nonempty(s: Seq<char>)
    ensures
        comma_pieces(s).len() >= 1,
    decreases s.len(),
{
    if s.len() > 0 {
        lemma_comma_pieces_nonempty(s.drop_last());
    }
}

proof fn lemma_trim_start(s: Seq<char>, a: int)
    requires
        0 <= a <= s.len(),
        forall|k: int| 0 <= k < a ==> white_space(#[trigger] s[k]),
        a == s.len() || !white_space(s[a]),
    ensures
        trim_start(s) == s.subrange(a, s.len() as int),
    decreases a,
{
    if a == 0 {
        assert(s.subrange(0, s.len() as int) =~= s);
    } else {
        let t = s.drop_first();
        assert forall|k: int| 0 <= k < a - 1 implies white_space(#[trigger] t[k]) by {
            assert(t[k] == s[k + 1]);
        }
        lemma_trim_start(t, a - 1);
        assert(t.subrange(a - 1, t.len() as int) =~= s.subrange(a, s.len() as int));
    }
}

proof fn lemma_trim_end(s: Seq<char>, b: int)
    requires
        0 <= b <= s.len(),
        forall|k: int| b <= k < s.len() ==> white_space(#[trigger] s[k]),
        b == 0 || !white_space(s[b - 1]),
    ensures
        trim_end(s) == s.subrange(0, b),
    decreases s.len() - b,
{
    if b == s.len() {
        assert(s.subrange(0, b) =~= s);
    } else {
        let t = s.drop_last();
        assert forall|k: int| b <= k < t.len() implies white_space(#[trigger] t[k]) by {
            assert(t[k] == s[k]);
        }
        lemma_trim_end(t, b);
        assert(t.subrange(0, b) =~= s.subrange(0, b));
    }
}

/// `chars` without leading or trailing white space.
fn trim_chars(chars: &Vec<char>) -> (r: String)
    ensures
        r@ == trimmed(chars@),
{
    let n = chars.len();
    let mut a: usize = 0;
    while a < n && is_white_space(chars[a])
        invariant
            a <= n == chars@.len(),
            forall|k: int| 0 <= k < a ==> white_space(#[trigger] chars@[k]),
        decreases n - a,
    {
        a = a + 1;
    }
    let mut b: usize = n;
    while b > a && is_white_space(chars[b - 1])
        invariant
            a <= b <= n == chars@.len(),
            forall|k: int| b <= k < n ==> white_space(#[trigger] chars@[k]),
        decreases b,
    {
        b = b - 1;
    }
    proof {
        lemma_trim_start(chars@, a as int);
        let rest = chars@.subrange(a as int, n as int);
        assert forall|k: int| b - a <= k < rest.len() implies white_space(#[trigger] rest[k]) by {
            assert(rest[k] == chars@[a + k]);
        }
        if b > a {
            assert(rest[b - a - 1] == chars@[b - 1]);
        }
        lemma_trim_end(rest, b - a);
        assert(rest.subrange(0, b - a) =~= chars@.subrange(a as int, b as int));
    }
    string_from_range(chars, a, b)
}

impl TypelyArgs {
    /// The tags listed in `tags_str`: the comma-separated pieces, trimmed,
    /// without the empty ones.
    pub fn parse_tags(tags_str: &str) -> (r: Vec<String>)
        ensures
            r@.map_values(|t: String| t@) == tags_of(comma_pieces(tags_str@)),
    {
        let s = chars_of(tags_str);
        let ghost text = tags_str@;
        let mut tags: Vec<String> = Vec::new();
        let mut cur: Vec<char> = Vec::new();
        let mut i: usize = 0;
        proof {
            assert(text.take(0) =~= Seq::<char>::empty());
        }
        while i < s.len()
            invariant
                s@ == text,
                i <= s@.len(),
                comma_pieces(text.take(i as int)).len() >= 1,
                cur@ == comma_pieces(text.take(i as int)).last(),
                tags@.map_values(|t: String| t@) == tags_of(
                    comma_pieces(text.take(i as int)).drop_last(),
                ),
            decreases s.len() - i,
        {
            let c = s[i];
            let ghost p = comma_pieces(text.take(i as int));
            proof {
                assert(text.take(i + 1).drop_last() =~= text.take(i as int));
                assert(text.take(i + 1).last() == c);
                lemma_comma_pieces_nonempty(text.take(i as int));
            }
            if c == ',' {
                let t = trim_chars(&cur);
                let ghost before = tags@;
                if !t.as_str().is_empty() {
                    tags.push(t);
                }
                proof {
                    let q = comma_pieces(text.take(i + 1));
                    assert(q == p.push(Seq::<char>::empty()));
                    assert(q.drop_last() =~= p);
                    assert(p =~= p.drop_last().push(p.last()));
                    assert(tags@.map_values(|t: String| t@) =~= tags_of(p));
                }
                cur = Vec::new();
            } else {
                cur.push(c);
                proof {
                    let q = comma_pieces(text.take(i + 1));
                    assert(q == p.update(p.len() - 1, p.last().push(c)));
                    assert(q.drop_last() =~= p.drop_last());
                }
            }
            i = i + 1;
        }
        let t = trim_chars(&cur);
        let ghost p = comma_pieces(text.take(i as int));
        if !t.as_str().is_empty() {
            tags.push(t);
        }
        proof {
            assert(text.take(i as int) =~= text);
            assert(p =~= p.drop_last().push(p.last()));
            assert(tags@.map_values(|t: String| t@) =~= tags_of(p));
        }
        tags
    }
}

} // verus!
