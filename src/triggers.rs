//! Trigger matching: finding marker-prefixed words such as `::hello` in text.
//!
//! A trigger is a marker (`::`, `@` or `#`, each of which can be enabled on its
//! own) followed by a maximal run of the characters `[A-Za-z0-9_-]`. Positions
//! are character offsets into the text, and each match spans the half-open
//! range `[start_position, end_position)`.

use vstd::prelude::*;
use crate::text::{chars_of, string_from_range};

verus! {

/// The number of marker patterns: `::` (0), `@` (1) and `#` (2).
pub const PATTERN_COUNT: usize = 3;

/// A character that may stand in a trigger's name.
pub open spec fn trigger_char(c: char) -> bool {
    ('a' <= c && c <= 'z') || ('A' <= c && c <= 'Z') || ('0' <= c && c <= '9') || c == '_' || c
        == '-'
}

/// The marker of pattern `p`.
pub open spec fn marker(p: int) -> Seq<char> {
    if p == 0 {
        seq![':', ':']
    } else if p == 1 {
        seq!['@']
    } else {
        seq!['#']
    }
}

/// The pattern whose marker begins with `c`, or -1.
pub open spec fn pattern_of(c: char) -> int {
    if c == ':' {
        0
    } else if c == '@' {
        1
    } else if c == '#' {
        2
    } else {
        -1
    }
}

/// A trigger of an enabled pattern starts at `i`: its marker stands there and
/// at least one name character follows it.
pub open spec fn starts_trigger(text: Seq<char>, pats: Set<usize>, i: int) -> bool {
    0 <= i < text.len() && {
        let p = pattern_of(text[i]);
        let m = marker(p);
        &&& p >= 0
        &&& pats.contains(p as usize)
        &&& i + m.len() < text.len()
        &&& text.subrange(i, i + m.len()) == m
        &&& trigger_char(text[i + m.len()])
    }
}

/// `[from, to)` is a maximal run of name characters in `text`.
pub open spec fn maximal_run(text: Seq<char>, from: int, to: int) -> bool {
    &&& 0 <= from <= to <= text.len()
    &&& forall|k: int| from <= k < to ==> trigger_char(#[trigger] text[k])
    &&& (to == text.len() || !trigger_char(text[to]))
}

/// A found trigger: the matched text and where it stands.
#[derive(Debug, Clone, PartialEq, Eq)]
pub struct TriggerMatch {
    pub trigger: String,
    pub start_position: usize,
    pub end_position: usize,
}

/// `m` is the trigger that starts at `m.start_position` in `text`.
pub open spec fn is_trigger_match(text: Seq<char>, pats: Set<usize>, m: TriggerMatch) -> bool {
    let s = m.start_position as int;
    let e = m.end_position as int;
    &&& starts_trigger(text, pats, s)
    &&& maximal_run(text, s + marker(pattern_of(text[s])).len(), e)
    &&& m.trigger@ == text.subrange(s, e)
}

/// `ms` lists every trigger of `text`, ordered by position.
pub open spec fn is_trigger_list(text: Seq<char>, pats: Set<usize>, ms: Seq<TriggerMatch>) -> bool {
    &&& forall|k: int| 0 <= k < ms.len() ==> is_trigger_match(text, pats, #[trigger] ms[k])
    &&& forall|a: int, b: int|
        0 <= a < b < ms.len() ==> (#[trigger] ms[a]).start_position < (#[trigger] ms[b]).start_position
    &&& forall|i: int|
        starts_trigger(text, pats, i) ==> exists|k: int|
            0 <= k < ms.len() && (#[trigger] ms[k]).start_position == i
}

impl TriggerMatch {
    pub fn new(trigger: String, start: usize, end: usize) -> (r: Self)
        ensures
            r.trigger == trigger,
            r.start_position == start,
            r.end_position == end,
    {
        TriggerMatch { trigger, start_position: start, end_position: end }
    }

    /// A copy of this match.
    pub fn duplicate(&self) -> (r: Self)
        ensures
            r == *self,
    {
        TriggerMatch {
            trigger: self.trigger.clone(),
            start_position: self.start_position,
            end_position: self.end_position,
        }
    }

    /// The number of characters the match spans.
    pub fn length(&self) -> (r: usize)
        requires
            self.start_position <= self.end_position,
        ensures
            r == self.end_position - self.start_position,
    {
        self.end_position - self.start_position
    }
}

/// Whether `c` may stand in a trigger's name.
pub fn is_trigger_char(c: char) -> (r: bool)
    ensures
        r == trigger_char(c),
{
    ('a' <= c && c <= 'z') || ('A' <= c && c <= 'Z') || ('0' <= c && c <= '9') || c == '_' || c
        == '-'
}

/// Whether `v` holds `x`.
fn holds_index(v: &Vec<usize>, x: usize) -> (r: bool)
    ensures
        r == v@.contains(x),
{
    let mut i: usize = 0;
    while i < v.len()
        invariant
            i <= v@.len(),
            forall|k: int| 0 <= k < i ==> v@[k] != x,
        decreases v.len() - i,
    {
        if v[i] == x {
            return true;
        }
        i = i + 1;
    }
    false
}

/// Whether a trigger of an enabled pattern starts at `i`.
fn trigger_starts_at(chars: &Vec<char>, pats: &Vec<usize>, i: usize) -> (r: bool)
    requires
        i < chars@.len(),
    ensures
        r == starts_trigger(chars@, pats@.to_set(), i as int),
{
    let c = chars[i];
    let n = chars.len();
    let text = Ghost(chars@);
    if c == ':' {
        if !holds_index(pats, 0) {
            return false;
        }
        if n - i > 2 && chars[i + 1] == ':' && is_trigger_char(chars[i + 2]) {
            assert(text@.subrange(i as int, i + 2) == seq![':', ':']);
            true
        } else {
            assert(i + 2 < n ==> chars@[i + 1 as int] != ':' ==> text@.subrange(i as int, i + 2)[1] != ':');
            false
        }
    } else if c == '@' || c == '#' {
        let p: usize = if c == '@' { 1 } else { 2 };
        if !holds_index(pats, p) {
            return false;
        }
        if n - i > 1 && is_trigger_char(chars[i + 1]) {
            assert(text@.subrange(i as int, i + 1) == marker(p as int));
            true
        } else {
            false
        }
    } else {
        false
    }
}

/// No trigger starts strictly inside another.
pub proof fn lemma_no_start_inside(text: Seq<char>, pats: Set<usize>, s: int, e: int, j: int)
    requires
        starts_trigger(text, pats, s),
        maximal_run(text, s + marker(pattern_of(text[s])).len(), e),
        s < j < e,
    ensures
        !starts_trigger(text, pats, j),
{
    let m = marker(pattern_of(text[s]));
    assert(text.subrange(s, s + m.len())[0] == text[s]);
    if j < s + m.len() {
        assert(text.subrange(s, s + m.len())[1] == text[s + 1]);
        assert(trigger_char(text[s + 2]));
        if starts_trigger(text, pats, j) {
            assert(text.subrange(j, j + 2)[1] == text[j + 1]);
        }
    } else {
        assert(trigger_char(text[j]));
    }
}

/// The end of the run of name characters that begins at `from`.
fn run_end(chars: &Vec<char>, from: usize) -> (r: usize)
    requires
        from <= chars@.len(),
    ensures
        maximal_run(chars@, from as int, r as int),
{
    let mut e = from;
    while e < chars.len() && is_trigger_char(chars[e])
        invariant
            from <= e <= chars@.len(),
            forall|k: int| from <= k < e ==> trigger_char(#[trigger] chars@[k]),
        decreases chars.len() - e,
    {
        e = e + 1;
    }
    e
}

/// Every trigger in `text` of the patterns listed in `pats`, ordered by position.
pub fn find_triggers(text: &str, pats: &Vec<usize>) -> (r: Vec<TriggerMatch>)
    ensures
        is_trigger_list(text@, pats@.to_set(), r@),
{
    let chars = chars_of(text);
    let n = chars.len();
    let ghost t = text@;
    let ghost ps = pats@.to_set();
    let mut result: Vec<TriggerMatch> = Vec::new();
    let mut i: usize = 0;
    while i < n
        invariant
            chars@ == t,
            t == text@,
            ps == pats@.to_set(),
            n == t.len(),
            i <= n,
            forall|k: int| 0 <= k < result@.len() ==> is_trigger_match(t, ps, #[trigger] result@[k]),
            forall|k: int| 0 <= k < result@.len() ==> (#[trigger] result@[k]).end_position <= i,
            forall|a: int, b: int|
                0 <= a < b < result@.len() ==> (#[trigger] result@[a]).start_position < (
                #[trigger] result@[b]).start_position,
            forall|j: int|
                0 <= j < i && starts_trigger(t, ps, j) ==> exists|k: int|
                    0 <= k < result@.len() && (#[trigger] result@[k]).start_position == j,
        decreases n - i,
    {
        if trigger_starts_at(&chars, pats, i) {
            let mlen: usize = if chars[i] == ':' { 2 } else { 1 };
            assert(mlen == marker(pattern_of(t[i as int])).len());
            let e = run_end(&chars, i + mlen);
            let m = TriggerMatch::new(string_from_range(&chars, i, e), i, e);
            let ghost old_result = result@;
            result.push(m);
            assert(result@[result@.len() - 1] == m);
            assert(is_trigger_match(t, ps, m));
            assert forall|j: int|
                0 <= j < e && starts_trigger(t, ps, j) implies exists|k: int|
                    0 <= k < result@.len() && (#[trigger] result@[k]).start_position == j by {
                if j < i {
                    let k = choose|k: int|
                        0 <= k < old_result.len() && (#[trigger] old_result[k]).start_position == j;
                    assert(result@[k] == old_result[k]);
                } else if j == i {
                    assert(result@[result@.len() - 1].start_position == j);
                } else {
                    lemma_no_start_inside(t, ps, i as int, e as int, j);
                }
            }
            assert forall|k: int| 0 <= k < result@.len() implies is_trigger_match(
                t,
                ps,
                #[trigger] result@[k],
            ) by {
                if k < old_result.len() {
                    assert(result@[k] == old_result[k]);
                }
            }
            i = e;
        } else {
            assert forall|j: int|
                0 <= j < i + 1 && starts_trigger(t, ps, j) implies exists|k: int|
                    0 <= k < result@.len() && (#[trigger] result@[k]).start_position == j by {
                assert(j < i);
            }
            i = i + 1;
        }
    }
    result
}


/// Two maximal runs from one place end at the same place.
pub proof fn lemma_maximal_run_unique(text: Seq<char>, from: int, e1: int, e2: int)
    requires
        maximal_run(text, from, e1),
        maximal_run(text, from, e2),
    ensures
        e1 == e2,
{
    if e1 < e2 {
        assert(trigger_char(text[e1]));
    } else if e2 < e1 {
        assert(trigger_char(text[e2]));
    }
}

/// The first `k` matches of two complete, ordered trigger lists of one text
/// start at the same places.
proof fn lemma_trigger_lists_agree_upto(
    text: Seq<char>,
    pats: Set<usize>,
    a: Seq<TriggerMatch>,
    b: Seq<TriggerMatch>,
    k: int,
)
    requires
        is_trigger_list(text, pats, a),
        is_trigger_list(text, pats, b),
        0 <= k <= a.len(),
        k <= b.len(),
    ensures
        forall|j: int| 0 <= j < k ==> (#[trigger] a[j]).start_position == b[j].start_position,
    decreases k,
{
    if k > 0 {
        lemma_trigger_lists_agree_upto(text, pats, a, b, k - 1);
        let j = k - 1;
        let x = a[j].start_position as int;
        let y = b[j].start_position as int;
        assert(is_trigger_match(text, pats, a[j]));
        assert(is_trigger_match(text, pats, b[j]));
        let kb = choose|i: int| 0 <= i < b.len() && (#[trigger] b[i]).start_position == x;
        let ka = choose|i: int| 0 <= i < a.len() && (#[trigger] a[i]).start_position == y;
        if kb < j {
            assert(a[kb].start_position == b[kb].start_position);
            assert(a[kb].start_position < a[j].start_position);
        }
        if ka < j {
            assert(a[ka].start_position == b[ka].start_position);
            assert(b[ka].start_position < b[j].start_position);
        }
        if kb > j {
            assert(b[j].start_position < b[kb].start_position);
        }
        if ka > j {
            assert(a[j].start_position < a[ka].start_position);
        }
    }
}

/// Trigger detection is deterministic: two lists that each hold exactly the
/// triggers of one text, ordered by position, are the same list.
pub proof fn lemma_trigger_list_unique(
    text: Seq<char>,
    pats: Set<usize>,
    a: Seq<TriggerMatch>,
    b: Seq<TriggerMatch>,
)
    requires
        is_trigger_list(text, pats, a),
        is_trigger_list(text, pats, b),
    ensures
        a.len() == b.len(),
        forall|k: int|
            0 <= k < a.len() ==> (#[trigger] a[k]).start_position == b[k].start_position
                && a[k].end_position == b[k].end_position && a[k].trigger@ == b[k].trigger@,
{
    if a.len() > b.len() {
        lemma_trigger_lists_agree_upto(text, pats, a, b, b.len() as int);
        let m = b.len() as int;
        assert(is_trigger_match(text, pats, a[m]));
        let i = choose|i: int|
            0 <= i < b.len() && (#[trigger] b[i]).start_position == a[m].start_position;
        assert(a[i].start_position == b[i].start_position);
        assert(a[i].start_position < a[m].start_position);
    } else if b.len() > a.len() {
        lemma_trigger_lists_agree_upto(text, pats, b, a, a.len() as int);
        let m = a.len() as int;
        assert(is_trigger_match(text, pats, b[m]));
        let i = choose|i: int|
            0 <= i < a.len() && (#[trigger] a[i]).start_position == b[m].start_position;
        assert(b[i].start_position == a[i].start_position);
        assert(b[i].start_position < b[m].start_position);
    }
    lemma_trigger_lists_agree_upto(text, pats, a, b, a.len() as int);
    assert forall|k: int| 0 <= k < a.len() implies (#[trigger] a[k]).start_position
        == b[k].start_position && a[k].end_position == b[k].end_position && a[k].trigger@
        == b[k].trigger@ by {
        assert(is_trigger_match(text, pats, a[k]));
        assert(is_trigger_match(text, pats, b[k]));
        let s = a[k].start_position as int;
        lemma_maximal_run_unique(
            text,
            s + marker(pattern_of(text[s])).len(),
            a[k].end_position as int,
            b[k].end_position as int,
        );
    }
}

/// A trigger that starts at `s` reaches from `s` to a place at or after `cursor`,
/// with `s <= cursor`.
pub open spec fn match_covers(text: Seq<char>, pats: Set<usize>, s: int, cursor: int) -> bool {
    &&& starts_trigger(text, pats, s)
    &&& s <= cursor
    &&& exists|e: int|
        #![trigger maximal_run(text, s + marker(pattern_of(text[s])).len(), e)]
        maximal_run(text, s + marker(pattern_of(text[s])).len(), e) && cursor <= e
}

/// `text[st..cursor]` is a partial trigger: the `::` marker and at least one
/// name character, up to the cursor.
pub open spec fn partial_from(text: Seq<char>, cursor: int, st: int) -> bool {
    &&& 0 <= st
    &&& st + 2 < cursor <= text.len()
    &&& text[st] == ':'
    &&& text[st + 1] == ':'
    &&& forall|k: int| st + 2 <= k < cursor ==> trigger_char(#[trigger] text[k])
}

/// The marker `::` stands at `p`.
pub open spec fn marker_at(text: Seq<char>, p: int) -> bool {
    0 <= p && p + 2 <= text.len() && text[p] == ':' && text[p + 1] == ':'
}

/// `p` is the last place where the marker `::` stands.
pub open spec fn last_marker(text: Seq<char>, p: int) -> bool {
    marker_at(text, p) && forall|q: int| p < q ==> !marker_at(text, q)
}

/// Detects triggers in typed text with a configurable set of marker patterns.
#[derive(Debug, Clone)]
pub struct TriggerDetectionService {
    enabled_patterns: Vec<usize>,
}

impl View for TriggerDetectionService {
    type V = Set<usize>;

    /// The enabled patterns.
    closed spec fn view(&self) -> Set<usize> {
        self.enabled_patterns@.to_set()
    }
}

impl TriggerDetectionService {
    /// A service with only the `::` pattern enabled.
    pub fn new() -> (r: Self)
        ensures
            r@ == set![0usize],
    {
        let r = TriggerDetectionService { enabled_patterns: vec![0] };
        assert(r@ =~= set![0usize]) by {
            assert(r.enabled_patterns@[0] == 0);
        }
        r
    }

    /// A service with every pattern enabled.
    pub fn with_all_patterns() -> (r: Self)
        ensures
            r@ == set![0usize, 1usize, 2usize],
    {
        let r = TriggerDetectionService { enabled_patterns: vec![0, 1, 2] };
        let ghost v = r.enabled_patterns@;
        assert(r@ =~= set![0usize, 1usize, 2usize]) by {
            assert(v[0] == 0 && v[1] == 1 && v[2] == 2);
            assert forall|x: usize| v.contains(x) implies x == 0 || x == 1 || x == 2 by {
                let k = choose|k: int| 0 <= k < v.len() && v[k] == x;
            }
        }
        r
    }

    /// Enables pattern `pattern_index`, if there is such a pattern.
    pub fn enable_pattern(&mut self, pattern_index: usize)
        ensures
            final(self)@ == if pattern_index < PATTERN_COUNT {
                old(self)@.insert(pattern_index)
            } else {
                old(self)@
            },
    {
        if pattern_index < PATTERN_COUNT && !holds_index(&self.enabled_patterns, pattern_index) {
            let ghost before = self.enabled_patterns@;
            self.enabled_patterns.push(pattern_index);
            assert(self.enabled_patterns@ == before.push(pattern_index));
            assert(final(self)@ =~= old(self)@.insert(pattern_index)) by {
                assert forall|x: usize| #[trigger] before.push(pattern_index).contains(x) implies (
                before.contains(x) || x == pattern_index) by {
                    let k = choose|k: int|
                        0 <= k < before.len() + 1 && before.push(pattern_index)[k] == x;
                    if k < before.len() {
                        assert(before[k] == x);
                    }
                }
                assert forall|x: usize| before.contains(x) implies #[trigger] before.push(
                    pattern_index,
                ).contains(x) by {
                    let k = choose|k: int| 0 <= k < before.len() && before[k] == x;
                    assert(before.push(pattern_index)[k] == x);
                }
                assert(before.push(pattern_index)[before.len() as int] == pattern_index);
            }
        } else if pattern_index < PATTERN_COUNT {
            assert(old(self)@ =~= old(self)@.insert(pattern_index));
        }
    }

    /// Disables pattern `pattern_index`.
    pub fn disable_pattern(&mut self, pattern_index: usize)
        ensures
            final(self)@ == old(self)@.remove(pattern_index),
    {
        let ghost before = self.enabled_patterns@;
        let mut kept: Vec<usize> = Vec::new();
        let mut i: usize = 0;
        while i < self.enabled_patterns.len()
            invariant
                self.enabled_patterns@ == before,
                i <= before.len(),
                forall|x: usize|
                    #[trigger] kept@.contains(x) <==> (x != pattern_index && exists|k: int|
                        0 <= k < i && before[k] == x),
            decreases self.enabled_patterns.len() - i,
        {
            let x = self.enabled_patterns[i];
            let ghost kept_before = kept@;
            if x != pattern_index {
                kept.push(x);
            }
            assert forall|y: usize|
                #[trigger] kept@.contains(y) <==> (y != pattern_index && exists|k: int|
                    0 <= k < i + 1 && before[k] == y) by {
                if kept@.contains(y) && y != x {
                    let k = choose|k: int| 0 <= k < kept@.len() && kept@[k] == y;
                    if x != pattern_index {
                        assert(k < kept_before.len());
                        assert(kept_before[k] == y);
                    }
                    assert(kept_before.contains(y));
                }
                if y != pattern_index && y != x && (exists|k: int| 0 <= k < i + 1 && before[k] == y) {
                    assert(kept_before.contains(y));
                    let k = choose|k: int| 0 <= k < kept_before.len() && kept_before[k] == y;
                    if x != pattern_index {
                        assert(kept@[k] == y);
                    }
                }
                if y == x && x != pattern_index {
                    assert(kept@[kept@.len() - 1] == y);
                    assert(before[i as int] == y);
                }
            }
            i = i + 1;
        }
        self.enabled_patterns = kept;
        assert(final(self)@ =~= old(self)@.remove(pattern_index)) by {
            assert forall|x: usize| before.contains(x) implies exists|k: int|
                0 <= k < before.len() && before[k] == x by {}
        }
    }

    /// Every trigger in `text` of the enabled patterns, ordered by position.
    pub fn find_triggers_in_text(&self, text: &str) -> (r: Vec<TriggerMatch>)
        ensures
            is_trigger_list(text@, self@, r@),
    {
        find_triggers(text, &self.enabled_patterns)
    }

    /// The first trigger whose range `[start, end]` holds `cursor_position`.
    pub fn find_trigger_at_cursor(&self, text: &str, cursor_position: usize) -> (r: Option<
        TriggerMatch,
    >)
        ensures
            r is None ==> forall|s: int| !match_covers(text@, self@, s, cursor_position as int),
            r matches Some(m) ==> {
                &&& is_trigger_match(text@, self@, m)
                &&& m.start_position <= cursor_position <= m.end_position
                &&& forall|s: int|
                    s < m.start_position ==> !match_covers(text@, self@, s, cursor_position as int)
            },
    {
        let ms = self.find_triggers_in_text(text);
        let ghost t = text@;
        let ghost ps = self@;
        let mut idx: usize = 0;
        while idx < ms.len()
            invariant
                t == text@,
                ps == self@,
                is_trigger_list(t, ps, ms@),
                idx <= ms@.len(),
                forall|k: int|
                    0 <= k < idx ==> !((#[trigger] ms@[k]).start_position <= cursor_position
                        <= ms@[k].end_position),
            decreases ms.len() - idx,
        {
            let m = &ms[idx];
            if m.start_position <= cursor_position && cursor_position <= m.end_position {
                let found = m.duplicate();
                assert forall|s: int|
                    s < found.start_position implies !match_covers(t, ps, s, cursor_position as int) by {
                    if match_covers(t, ps, s, cursor_position as int) {
                        let k = choose|k: int| 0 <= k < ms@.len() && (#[trigger] ms@[k]).start_position == s;
                        assert(is_trigger_match(t, ps, ms@[k]));
                        let e = choose|e: int|
                            #![trigger maximal_run(t, s + marker(pattern_of(t[s])).len(), e)]
                            maximal_run(t, s + marker(pattern_of(t[s])).len(), e) && cursor_position <= e;
                        lemma_maximal_run_unique(t, s + marker(pattern_of(t[s])).len(), e, ms@[k].end_position as int);
                        if k > idx {
                            assert(ms@[idx as int].start_position < ms@[k].start_position);
                        } else if k < idx {
                            assert(!(ms@[k].start_position <= cursor_position <= ms@[k].end_position));
                        }
                        assert(false);
                    }
                }
                return Some(found);
            }
            idx = idx + 1;
        }
        assert forall|s: int| !match_covers(t, ps, s, cursor_position as int) by {
            if match_covers(t, ps, s, cursor_position as int) {
                let k = choose|k: int| 0 <= k < ms@.len() && (#[trigger] ms@[k]).start_position == s;
                assert(is_trigger_match(t, ps, ms@[k]));
                let e = choose|e: int|
                    #![trigger maximal_run(t, s + marker(pattern_of(t[s])).len(), e)]
                    maximal_run(t, s + marker(pattern_of(t[s])).len(), e) && cursor_position <= e;
                lemma_maximal_run_unique(t, s + marker(pattern_of(t[s])).len(), e, ms@[k].end_position as int);
            }
        }
        None
    }

    /// The partial trigger that ends at the cursor: scanning backwards over name
    /// characters up to a `::` marker, with at least one name character after it.
    pub fn extract_partial_trigger(&self, text: &str, cursor_position: usize) -> (r: Option<String>)
        ensures
            r is Some <==> exists|st: int| partial_from(text@, cursor_position as int, st),
            r matches Some(p) ==> exists|st: int|
                partial_from(text@, cursor_position as int, st) && p@ == text@.subrange(
                    st,
                    cursor_position as int,
                ),
    {
        let chars = chars_of(text);
        let ghost t = text@;
        let cursor = cursor_position;
        if cursor == 0 || cursor > chars.len() {
            return None;
        }
        let mut start: usize = cursor - 1;
        let mut paired = false;
        while start > 0 && !paired
            invariant
                chars@ == t,
                t == text@,
                cursor == cursor_position,
                1 <= cursor <= t.len(),
                start < cursor,
                !paired ==> forall|k: int| start < k < cursor ==> trigger_char(#[trigger] t[k]),
                paired ==> {
                    &&& start + 1 < cursor
                    &&& t[start as int] == ':'
                    &&& t[start + 1] == ':'
                    &&& forall|k: int| start + 1 < k < cursor ==> trigger_char(#[trigger] t[k])
                },
            decreases start,
        {
            if chars[start] == ':' && chars[start - 1] == ':' {
                start = start - 1;
                paired = true;
            } else if !is_trigger_char(chars[start]) {
                assert forall|st: int| !partial_from(t, cursor as int, st) by {
                    if partial_from(t, cursor as int, st) {
                        if st + 1 < start {
                            assert(trigger_char(t[start as int]));
                        } else if st + 1 > start {
                            assert(trigger_char(t[st + 1]));
                        } else {
                            assert(t[st] == ':' && t[st + 1] == ':');
                        }
                        assert(false);
                    }
                }
                return None;
            } else {
                start = start - 1;
            }
        }
        if paired && cursor - start > 2 {
            let partial = string_from_range(&chars, start, cursor);
            assert(partial_from(t, cursor as int, start as int));
            Some(partial)
        } else {
            assert forall|st: int| !partial_from(t, cursor as int, st) by {
                if partial_from(t, cursor as int, st) {
                    assert(t[st + 1] == ':');
                    if paired {
                        assert(trigger_char(t[start + 1]));
                    } else {
                        assert(start == 0);
                        assert(trigger_char(t[st + 1]));
                    }
                    assert(false);
                }
            }
            None
        }
    }

    /// The text from the last `::` to the end, when something follows that
    /// marker.
    pub fn detect_trigger(&self, text: &str) -> (r: Option<TriggerMatch>)
        ensures
            r is Some <==> exists|p: int| last_marker(text@, p) && p + 2 < text@.len(),
            r matches Some(m) ==> last_marker(text@, m.start_position as int) && m.end_position
                == text@.len() && m.trigger@ == text@.subrange(
                m.start_position as int,
                text@.len() as int,
            ),
    {
        let chars = chars_of(text);
        let n = chars.len();
        let ghost t = text@;
        if n < 2 {
            return None;
        }
        let mut p: usize = n - 2;
        loop
            invariant
                chars@ == t,
                t == text@,
                n == t.len() >= 2,
                p <= n - 2,
                forall|q: int| p < q <= n - 2 ==> !marker_at(t, q),
            decreases p,
        {
            if chars[p] == ':' && chars[p + 1] == ':' {
                assert(last_marker(t, p as int));
                if n - p > 2 {
                    let trigger = string_from_range(&chars, p, n);
                    return Some(TriggerMatch::new(trigger, p, n));
                }
                assert forall|q: int| last_marker(t, q) implies q == p by {}
                return None;
            }
            if p == 0 {
                assert forall|q: int| !last_marker(t, q) by {}
                return None;
            }
            p = p - 1;
        }
    }

    /// Whether `c` may stand in a trigger, marker included.
    pub fn is_valid_trigger_character(&self, c: char) -> (r: bool)
        ensures
            r == (trigger_char(c) || c == ':'),
    {
        is_trigger_char(c) || c == ':'
    }
}

} // verus!
