//! Snapshot comparison for scripted scenarios: JSON paths and ignore
//! patterns, redaction of ignored values, structural diffs and their
//! human-readable rendering.

use vstd::prelude::*;
use crate::json::{
    entries_get, lemma_entries_get_size, lemma_item_size, lemma_json_size_pos, entries_size, items_size, json_size, lemma_view_entries, lemma_view_items, view_entries, view_items,
    view_json, Json, JsonValue,
};
use crate::ordered::{lemma_less_irreflexive, lemma_sorted_unique, seq_less, sorted_insert, strictly_sorted};
use crate::json::json_text;
use crate::text::{decimal, fmt_usize, opt_view, strings_view, trim, unsigned_at_most};

verus! {

/// The text that replaces an ignored value.
pub const REDACTED_VALUE: &'static str = "[ignored]";

/// One step of a JSON path.
pub enum PathToken {
    Key(String),
    Index(usize),
}

/// One step of an ignore pattern.
pub enum PatternToken {
    Key(String),
    Index(usize),
    Wildcard,
}

/// A path step as plain values.
pub enum PathTok {
    Key(Seq<char>),
    Index(nat),
}

/// A pattern step as plain values.
pub enum PatTok {
    Key(Seq<char>),
    Index(nat),
    Wildcard,
}

pub open spec fn path_tok(t: PathToken) -> PathTok {
    match t {
        PathToken::Key(k) => PathTok::Key(k@),
        PathToken::Index(i) => PathTok::Index(i as nat),
    }
}

pub open spec fn path_toks(s: Seq<PathToken>) -> Seq<PathTok> {
    s.map_values(|t: PathToken| path_tok(t))
}

pub open spec fn pat_tok(t: PatternToken) -> PatTok {
    match t {
        PatternToken::Key(k) => PatTok::Key(k@),
        PatternToken::Index(i) => PatTok::Index(i as nat),
        PatternToken::Wildcard => PatTok::Wildcard,
    }
}

pub open spec fn pat_toks(s: Seq<PatternToken>) -> Seq<PatTok> {
    s.map_values(|t: PatternToken| pat_tok(t))
}

pub open spec fn pats_view(s: Seq<Vec<PatternToken>>) -> Seq<Seq<PatTok>> {
    s.map_values(|p: Vec<PatternToken>| pat_toks(p@))
}

// ---------------------------------------------------------------------------
// Path text.
// ---------------------------------------------------------------------------

/// The text of one path step: `.key` or `[index]`.
pub open spec fn tok_text(t: PathTok) -> Seq<char> {
    match t {
        PathTok::Key(k) => "."@ + k,
        PathTok::Index(i) => "["@ + decimal(i) + "]"@,
    }
}

/// The text of consecutive path steps.
pub open spec fn toks_text(toks: Seq<PathTok>) -> Seq<char>
    decreases toks.len(),
{
    if toks.len() == 0 {
        Seq::empty()
    } else {
        toks_text(toks.drop_last()) + tok_text(toks.last())
    }
}

/// A path as text, rooted at `$`.
pub open spec fn path_text(toks: Seq<PathTok>) -> Seq<char> {
    "$"@ + toks_text(toks)
}

/// Render a path as text, rooted at `$`.
pub fn path_to_string(tokens: &[PathToken]) -> (r: String)
    ensures
        r@ == path_text(path_toks(tokens@)),
{
    let mut out = String::from_str("$");
    let mut i: usize = 0;
    while i < tokens.len()
        invariant
            i <= tokens@.len(),
            out@ == "$"@ + toks_text(path_toks(tokens@.subrange(0, i as int))),
        decreases tokens@.len() - i,
    {
        proof {
            assert(path_toks(tokens@.subrange(0, i + 1)).drop_last() =~= path_toks(tokens@.subrange(0, i as int)));
        }
        match &tokens[i] {
            PathToken::Key(k) => {
                out.append(".");
                out.append(k.as_str());
            },
            PathToken::Index(n) => {
                out.append("[");
                out.append(fmt_usize(*n).as_str());
                out.append("]");
            },
        }
        proof {
            assert(path_toks(tokens@.subrange(0, i + 1)).last() == path_tok(tokens@[i as int]));
        }
        i = i + 1;
    }
    proof {
        assert(tokens@.subrange(0, i as int) =~= tokens@);
    }
    out
}

// ---------------------------------------------------------------------------
// Ignore patterns.
// ---------------------------------------------------------------------------

/// The position of the first `]` at or after `i` (the end when none).
pub open spec fn close_at(cs: Seq<char>, i: int) -> int
    decreases cs.len() - i,
{
    if i >= cs.len() {
        cs.len() as int
    } else if cs[i] == ']' {
        i
    } else {
        close_at(cs, i + 1)
    }
}

pub proof fn lemma_close_at(cs: Seq<char>, i: int)
    ensures
        i >= cs.len() ==> close_at(cs, i) == cs.len(),
        i < cs.len() ==> i <= close_at(cs, i) <= cs.len(),
        forall|k: int| i <= k < close_at(cs, i) ==> cs[k] != ']',
        close_at(cs, i) < cs.len() ==> cs[close_at(cs, i)] == ']',
    decreases cs.len() - i,
{
    if i < cs.len() && cs[i] != ']' {
        lemma_close_at(cs, i + 1);
    }
}

/// A buffered pattern segment as a step: none when empty, a wildcard for
/// `*`, else a key.
pub open spec fn flush_tok(buf: Seq<char>) -> Seq<PatTok> {
    if buf.len() == 0 {
        Seq::empty()
    } else if buf == seq!['*'] {
        seq![PatTok::Wildcard]
    } else {
        seq![PatTok::Key(buf)]
    }
}

/// A bracketed pattern segment as a step: a wildcard when empty or `*`, an
/// index when it is a `usize`, else a key.
pub open spec fn bracket_pat(inside: Seq<char>) -> PatTok {
    if inside.len() == 0 || inside == seq!['*'] {
        PatTok::Wildcard
    } else {
        match unsigned_at_most(inside, usize::MAX as nat) {
            Some(n) => PatTok::Index(n),
            None => PatTok::Key(inside),
        }
    }
}

/// The steps of a pattern from position `i`, with `buf` read so far.
pub open spec fn pattern_scan(cs: Seq<char>, i: int, buf: Seq<char>) -> Seq<PatTok>
    decreases cs.len() + 1 - i,
{
    if i >= cs.len() {
        flush_tok(buf)
    } else if cs[i] == '.' {
        flush_tok(buf) + pattern_scan(cs, i + 1, Seq::empty())
    } else if cs[i] == '[' {
        let j = close_at(cs, i + 1);
        proof {
            lemma_close_at(cs, i + 1);
        }
        flush_tok(buf) + seq![bracket_pat(cs.subrange(i + 1, j))] + pattern_scan(cs, j + 1, Seq::empty())
    } else {
        pattern_scan(cs, i + 1, buf.push(cs[i]))
    }
}

/// The steps of an ignore pattern: `.` separates keys, `[..]` holds an
/// index, a key or a wildcard, and `*` alone is a wildcard.
pub open spec fn pattern_tokens(p: Seq<char>) -> Seq<PatTok> {
    pattern_scan(p, 0, Seq::empty())
}

fn flush_exec(buf: &mut Vec<char>, tokens: &mut Vec<PatternToken>)
    ensures
        final(buf)@.len() == 0,
        pat_toks(final(tokens)@) == pat_toks(old(tokens)@) + flush_tok(old(buf)@),
{
    let ghost before = tokens@;
    if buf.len() == 0 {
        assert(pat_toks(tokens@) =~= pat_toks(before) + flush_tok(buf@));
        return;
    }
    if buf.len() == 1 && buf[0] == '*' {
        assert(buf@ =~= seq!['*']);
        tokens.push(PatternToken::Wildcard);
    } else {
        assert(buf@ != seq!['*']);
        tokens.push(PatternToken::Key(crate::text::string_of(buf.as_slice())));
    }
    assert(pat_toks(tokens@) =~= pat_toks(before) + flush_tok(old(buf)@));
    *buf = Vec::new();
}

fn index_of(buf: &Vec<char>) -> (r: Option<usize>)
    ensures
        match r {
            Some(n) => unsigned_at_most(buf@, usize::MAX as nat) == Some(n as nat),
            None => unsigned_at_most(buf@, usize::MAX as nat) is None,
        },
{
    let s = crate::text::string_of(buf.as_slice());
    match crate::text::parse_unsigned(s.as_str(), usize::MAX as u64) {
        Some(n) => Some(n as usize),
        None => None,
    }
}

/// Parse an ignore pattern into its steps.
pub fn parse_pattern(pattern: &str) -> (r: Vec<PatternToken>)
    ensures
        pat_toks(r@) == pattern_tokens(pattern@),
{
    let cs = crate::text::chars_of(pattern);
    let mut tokens: Vec<PatternToken> = Vec::new();
    let mut buffer: Vec<char> = Vec::new();
    let mut i: usize = 0;
    proof {
        assert(pat_toks(tokens@) =~= Seq::<PatTok>::empty());
        assert(buffer@ =~= Seq::<char>::empty());
    }
    while i < cs.len()
        invariant
            i <= cs@.len(),
            cs@ == pattern@,
            pat_toks(tokens@) + pattern_scan(cs@, i as int, buffer@) == pattern_tokens(pattern@),
        decreases cs@.len() - i,
    {
        let ch = cs[i];
        let ghost prev = pat_toks(tokens@);
        let ghost pbuf = buffer@;
        if ch == '.' {
            flush_exec(&mut buffer, &mut tokens);
            proof {
                assert(buffer@ =~= Seq::<char>::empty());
                assert(prev + (flush_tok(pbuf) + pattern_scan(cs@, i + 1, Seq::empty())) =~= pat_toks(tokens@)
                    + pattern_scan(cs@, i + 1, buffer@));
            }
            i = i + 1;
        } else if ch == '[' {
            flush_exec(&mut buffer, &mut tokens);
            let ghost mid = pat_toks(tokens@);
            let mut inside: Vec<char> = Vec::new();
            let mut k: usize = i + 1;
            proof {
                lemma_close_at(cs@, i + 1);
                assert(inside@ =~= cs@.subrange(i + 1, k as int));
            }
            while k < cs.len() && cs[k] != ']'
                invariant
                    i + 1 <= k <= cs@.len(),
                    close_at(cs@, i + 1) == close_at(cs@, k as int),
                    inside@ == cs@.subrange(i + 1, k as int),
                decreases cs@.len() - k,
            {
                inside.push(cs[k]);
                proof {
                    assert(inside@ =~= cs@.subrange(i + 1, k + 1));
                }
                k = k + 1;
            }
            let ghost j = close_at(cs@, i + 1);
            proof {
                assert(k == j);
            }
            if inside.len() == 0 || (inside.len() == 1 && inside[0] == '*') {
                proof {
                    if inside.len() == 1 {
                        assert(inside@ =~= seq!['*']);
                    }
                }
                tokens.push(PatternToken::Wildcard);
            } else {
                proof {
                    assert(inside@ != seq!['*']);
                }
                match index_of(&inside) {
                    Some(n) => tokens.push(PatternToken::Index(n)),
                    None => tokens.push(PatternToken::Key(crate::text::string_of(inside.as_slice()))),
                }
            }
            proof {
                assert(pat_toks(tokens@) =~= mid.push(bracket_pat(cs@.subrange(i + 1, j))));
                assert(prev + (flush_tok(pbuf) + seq![bracket_pat(cs@.subrange(i + 1, j))]
                    + pattern_scan(cs@, j + 1, Seq::empty())) =~= pat_toks(tokens@)
                    + pattern_scan(cs@, j + 1, Seq::empty()));
                assert(buffer@ =~= Seq::<char>::empty());
            }
            if k < cs.len() {
                i = k + 1;
            } else {
                i = k;
                proof {
                    assert(pattern_scan(cs@, j + 1, Seq::empty()) == flush_tok(Seq::empty()));
                    assert(pattern_scan(cs@, i as int, buffer@) == flush_tok(Seq::empty()));
                }
            }
        } else {
            buffer.push(ch);
            i = i + 1;
        }
    }
    let ghost prev = pat_toks(tokens@);
    let ghost pbuf = buffer@;
    flush_exec(&mut buffer, &mut tokens);
    proof {
        assert(prev + flush_tok(pbuf) == pat_toks(tokens@));
    }
    tokens
}

/// A pattern step accepts a path step.
pub open spec fn tok_matches(p: PatTok, t: PathTok) -> bool {
    match p {
        PatTok::Wildcard => true,
        PatTok::Key(k) => t == PathTok::Key(k),
        PatTok::Index(i) => t == PathTok::Index(i),
    }
}

/// A pattern matches a path when each of its steps accepts the path's step
/// at the same position (a pattern matches every path it is a prefix of).
pub open spec fn pattern_matches(path: Seq<PathTok>, pattern: Seq<PatTok>) -> bool {
    pattern.len() <= path.len() && forall|i: int|
        0 <= i < pattern.len() ==> tok_matches(#[trigger] pattern[i], path[i])
}

fn tok_matches_exec(p: &PatternToken, t: &PathToken) -> (r: bool)
    ensures
        r == tok_matches(pat_tok(*p), path_tok(*t)),
{
    match (p, t) {
        (PatternToken::Wildcard, _) => true,
        (PatternToken::Key(a), PathToken::Key(b)) => crate::text::str_eq(a.as_str(), b.as_str()),
        (PatternToken::Index(a), PathToken::Index(b)) => *a == *b,
        _ => false,
    }
}

/// Whether an ignore pattern matches a path.
pub fn matches_pattern(path: &[PathToken], pattern: &[PatternToken]) -> (r: bool)
    ensures
        r == pattern_matches(path_toks(path@), pat_toks(pattern@)),
{
    if pattern.len() > path.len() {
        return false;
    }
    let mut i: usize = 0;
    while i < pattern.len()
        invariant
            i <= pattern@.len() <= path@.len(),
            forall|j: int| 0 <= j < i ==> tok_matches(#[trigger] pat_toks(pattern@)[j], path_toks(path@)[j]),
        decreases pattern@.len() - i,
    {
        if !tok_matches_exec(&pattern[i], &path[i]) {
            assert(!tok_matches(pat_toks(pattern@)[i as int], path_toks(path@)[i as int]));
            return false;
        }
        i = i + 1;
    }
    true
}

/// The patterns in effect: each trimmed, blank ones dropped, then parsed.
pub open spec fn compiled(patterns: Seq<Seq<char>>) -> Seq<Seq<PatTok>>
    decreases patterns.len(),
{
    if patterns.len() == 0 {
        Seq::empty()
    } else {
        compiled(patterns.drop_last()) + if trim(patterns.last()).len() == 0 {
            Seq::<Seq<PatTok>>::empty()
        } else {
            seq![pattern_tokens(trim(patterns.last()))]
        }
    }
}

/// Parse each non-blank ignore pattern, trimmed.
pub fn compile_patterns(patterns: &[String]) -> (r: Vec<Vec<PatternToken>>)
    ensures
        pats_view(r@) == compiled(strings_view(patterns@)),
{
    let mut out: Vec<Vec<PatternToken>> = Vec::new();
    let mut i: usize = 0;
    while i < patterns.len()
        invariant
            i <= patterns@.len(),
            pats_view(out@) == compiled(strings_view(patterns@.subrange(0, i as int))),
        decreases patterns@.len() - i,
    {
        let ghost before = out@;
        proof {
            assert(strings_view(patterns@.subrange(0, i + 1)).drop_last() =~= strings_view(patterns@.subrange(0, i as int)));
            assert(strings_view(patterns@.subrange(0, i + 1)).last() == patterns@[i as int]@);
        }
        let t = crate::text::trim_str(patterns[i].as_str());
        if crate::text::chars_of(t.as_str()).len() != 0 {
            let p = parse_pattern(t.as_str());
            out.push(p);
            proof {
                assert(pats_view(out@) =~= pats_view(before).push(pat_toks(p@)));
            }
        } else {
            proof {
                assert(trim(patterns@[i as int]@).len() == 0);
            }
        }
        proof {
            assert(pats_view(out@) =~= compiled(strings_view(patterns@.subrange(0, i + 1))));
        }
        i = i + 1;
    }
    proof {
        assert(patterns@.subrange(0, i as int) =~= patterns@);
    }
    out
}

/// Some compiled pattern matches the path.
pub open spec fn redacts(path: Seq<PathTok>, compiled: Seq<Seq<PatTok>>) -> bool {
    exists|k: int| 0 <= k < compiled.len() && pattern_matches(path, #[trigger] compiled[k])
}

/// Whether some compiled pattern matches the path.
pub fn should_redact(path: &[PathToken], compiled: &[Vec<PatternToken>]) -> (r: bool)
    ensures
        r == redacts(path_toks(path@), pats_view(compiled@)),
{
    let mut k: usize = 0;
    while k < compiled.len()
        invariant
            k <= compiled@.len(),
            forall|j: int| 0 <= j < k ==> !pattern_matches(path_toks(path@), #[trigger] pats_view(compiled@)[j]),
        decreases compiled@.len() - k,
    {
        if matches_pattern(path, compiled[k].as_slice()) {
            assert(pattern_matches(path_toks(path@), pats_view(compiled@)[k as int]));
            return true;
        }
        k = k + 1;
    }
    false
}

// ---------------------------------------------------------------------------
// Diff paths read back.
// ---------------------------------------------------------------------------

/// The position of the first `.` or `[` at or after `i` (the end when none).
pub open spec fn stop_at(cs: Seq<char>, i: int) -> int
    decreases cs.len() - i,
{
    if i >= cs.len() {
        cs.len() as int
    } else if cs[i] == '.' || cs[i] == '[' {
        i
    } else {
        stop_at(cs, i + 1)
    }
}

pub proof fn lemma_stop_at(cs: Seq<char>, i: int)
    ensures
        i >= cs.len() ==> stop_at(cs, i) == cs.len(),
        i < cs.len() ==> i <= stop_at(cs, i) <= cs.len(),
        stop_at(cs, i) < cs.len() ==> (cs[stop_at(cs, i)] == '.' || cs[stop_at(cs, i)] == '['),
    decreases cs.len() - i,
{
    if i < cs.len() && cs[i] != '.' && cs[i] != '[' {
        lemma_stop_at(cs, i + 1);
    }
}

/// A bracketed path segment as a step: an index when it is a `usize`, else
/// a key.
pub open spec fn bracket_path(buf: Seq<char>) -> PathTok {
    match unsigned_at_most(buf, usize::MAX as nat) {
        Some(n) => PathTok::Index(n),
        None => PathTok::Key(buf),
    }
}

/// The steps of a path text from position `i`.
pub open spec fn path_scan(cs: Seq<char>, i: int) -> Seq<PathTok>
    decreases cs.len() + 1 - i,
{
    if i >= cs.len() {
        Seq::empty()
    } else if cs[i] == '.' {
        let j = stop_at(cs, i + 1);
        proof {
            lemma_stop_at(cs, i + 1);
        }
        let buf = cs.subrange(i + 1, j);
        (if buf.len() > 0 {
            seq![PathTok::Key(buf)]
        } else {
            Seq::empty()
        }) + path_scan(cs, j)
    } else if cs[i] == '[' {
        let j = close_at(cs, i + 1);
        proof {
            lemma_close_at(cs, i + 1);
        }
        let buf = cs.subrange(i + 1, j);
        (if buf.len() == 0 {
            Seq::empty()
        } else {
            seq![bracket_path(buf)]
        }) + path_scan(cs, j + 1)
    } else {
        path_scan(cs, i + 1)
    }
}

/// The steps a path text names, after an optional leading `$`.
pub open spec fn path_tokens(p: Seq<char>) -> Seq<PathTok> {
    path_scan(p, if p.len() > 0 && p[0] == '$' { 1 } else { 0 })
}

/// Read a path text back into its steps.
pub fn parse_path(path: &str) -> (r: Vec<PathToken>)
    ensures
        path_toks(r@) == path_tokens(path@),
{
    let cs = crate::text::chars_of(path);
    let mut tokens: Vec<PathToken> = Vec::new();
    let mut i: usize = if cs.len() > 0 && cs[0] == '$' {
        1
    } else {
        0
    };
    proof {
        assert(path_toks(tokens@) =~= Seq::<PathTok>::empty());
    }
    while i < cs.len()
        invariant
            i <= cs@.len(),
            cs@ == path@,
            path_toks(tokens@) + path_scan(cs@, i as int) == path_tokens(path@),
        decreases cs@.len() - i,
    {
        let ghost prev = path_toks(tokens@);
        if cs[i] == '.' {
            let mut buffer: Vec<char> = Vec::new();
            let mut k: usize = i + 1;
            proof {
                lemma_stop_at(cs@, i + 1);
                assert(buffer@ =~= cs@.subrange(i + 1, k as int));
            }
            while k < cs.len() && cs[k] != '.' && cs[k] != '['
                invariant
                    i + 1 <= k <= cs@.len(),
                    stop_at(cs@, i + 1) == stop_at(cs@, k as int),
                    buffer@ == cs@.subrange(i + 1, k as int),
                decreases cs@.len() - k,
            {
                buffer.push(cs[k]);
                proof {
                    assert(buffer@ =~= cs@.subrange(i + 1, k + 1));
                }
                k = k + 1;
            }
            if buffer.len() > 0 {
                tokens.push(PathToken::Key(crate::text::string_of(buffer.as_slice())));
                proof {
                    assert(path_toks(tokens@) =~= prev + seq![PathTok::Key(buffer@)]);
                }
            }
            proof {
                assert(k == stop_at(cs@, i + 1));
                assert(path_toks(tokens@) + path_scan(cs@, k as int) =~= path_tokens(path@));
            }
            i = k;
        } else if cs[i] == '[' {
            let mut buffer: Vec<char> = Vec::new();
            let mut k: usize = i + 1;
            proof {
                lemma_close_at(cs@, i + 1);
                assert(buffer@ =~= cs@.subrange(i + 1, k as int));
            }
            while k < cs.len() && cs[k] != ']'
                invariant
                    i + 1 <= k <= cs@.len(),
                    close_at(cs@, i + 1) == close_at(cs@, k as int),
                    buffer@ == cs@.subrange(i + 1, k as int),
                decreases cs@.len() - k,
            {
                buffer.push(cs[k]);
                proof {
                    assert(buffer@ =~= cs@.subrange(i + 1, k + 1));
                }
                k = k + 1;
            }
            if buffer.len() > 0 {
                match index_of(&buffer) {
                    Some(n) => tokens.push(PathToken::Index(n)),
                    None => tokens.push(PathToken::Key(crate::text::string_of(buffer.as_slice()))),
                }
                proof {
                    assert(path_toks(tokens@) =~= prev + seq![bracket_path(buffer@)]);
                }
            }
            proof {
                assert(k == close_at(cs@, i + 1));
                assert(path_toks(tokens@) + path_scan(cs@, k + 1) =~= path_tokens(path@));
            }
            if k < cs.len() {
                i = k + 1;
            } else {
                i = k;
            }
        } else {
            i = i + 1;
        }
    }
    proof {
        assert(path_toks(tokens@) =~= path_tokens(path@));
    }
    tokens
}


// ---------------------------------------------------------------------------
// Redaction.
// ---------------------------------------------------------------------------

/// A document with every value at a matching path replaced by
/// `"[ignored]"`; `path` is where the document sits.
pub open spec fn redact(v: Json, path: Seq<PathTok>, comp: Seq<Seq<PatTok>>) -> Json
    decreases json_size(v), 0int,
{
    if redacts(path, comp) {
        Json::Str(REDACTED_VALUE@)
    } else {
        match v {
            Json::Array(items) => Json::Array(redact_items(items, path, comp)),
            Json::Object(es) => Json::Object(redact_entries(es, path, comp)),
            _ => v,
        }
    }
}

/// The items of an array under `path`, each redacted at its index.
pub open spec fn redact_items(items: Seq<Json>, path: Seq<PathTok>, comp: Seq<Seq<PatTok>>) -> Seq<Json>
    decreases items_size(items), 1int,
{
    if items.len() == 0 {
        Seq::empty()
    } else {
        proof {
            lemma_json_size_pos(items.last());
        }
        redact_items(items.drop_last(), path, comp).push(
            redact(items.last(), path.push(PathTok::Index((items.len() - 1) as nat)), comp),
        )
    }
}

/// The entries of an object under `path`, each value redacted at its key.
pub open spec fn redact_entries(es: Seq<(Seq<char>, Json)>, path: Seq<PathTok>, comp: Seq<Seq<PatTok>>) -> Seq<
    (Seq<char>, Json),
>
    decreases entries_size(es), 1int,
{
    if es.len() == 0 {
        Seq::empty()
    } else {
        proof {
            lemma_json_size_pos(es.last().1);
        }
        redact_entries(es.drop_last(), path, comp).push(
            (es.last().0, redact(es.last().1, path.push(PathTok::Key(es.last().0)), comp)),
        )
    }
}

/// What `apply_redactions` makes of a document under some ignore patterns.
pub open spec fn redacted(v: Json, patterns: Seq<Seq<char>>) -> Json {
    if patterns.len() == 0 {
        v
    } else {
        redact(v, Seq::empty(), compiled(patterns))
    }
}

#[verifier::loop_isolation(false)]
#[verifier::spinoff_prover]
#[verifier::rlimit(40)]
fn redact_walk(current: &JsonValue, path: &mut Vec<PathToken>, compiled: &[Vec<PatternToken>]) -> (r: JsonValue)
    ensures
        final(path)@ == old(path)@,
        r@ == redact(current@, path_toks(old(path)@), pats_view(compiled@)),
    decreases current,
{
    let ghost comp = pats_view(compiled@);
    let ghost p0 = path@;
    if should_redact(path.as_slice(), compiled) {
        return JsonValue::String(String::from_str(REDACTED_VALUE));
    }
    match current {
        JsonValue::Array(values) => {
            let mut out: Vec<JsonValue> = Vec::new();
            let ghost iv = view_items(values@);
            proof {
                lemma_view_items(values@);
            }
            let mut i: usize = 0;
            while i < values.len()
                invariant
                    i <= values@.len(),
                    path@ == p0,
                    iv == view_items(values@),
                    iv.len() == values@.len(),
                    forall|k: int| 0 <= k < values@.len() ==> #[trigger] iv[k] == view_json(values@[k]),
                    view_items(out@) == redact_items(iv.subrange(0, i as int), path_toks(p0), comp),
                decreases values@.len() - i,
            {
                proof {
                    assert(*values == (*current)->Array_0);
                    assert(decreases_to!(*current => (*current)->Array_0));
                    assert(decreases_to!(*values => values@));
                    assert(decreases_to!(values@ => values@[i as int]));
                }
                path.push(PathToken::Index(i));
                proof {
                    assert(path_toks(path@) =~= path_toks(p0).push(PathTok::Index(i as nat)));
                }
                let next = redact_walk(&values[i], path, compiled);
                path.pop();
                proof {
                    assert(path@ =~= p0);
                    let pre = iv.subrange(0, i + 1);
                    assert(pre.drop_last() =~= iv.subrange(0, i as int));
                    assert(pre.last() == iv[i as int]);
                }
                let ghost before = out@;
                out.push(next);
                proof {
                    assert(out@.drop_last() =~= before);
                }
                i = i + 1;
            }
            proof {
                assert(iv.subrange(0, i as int) =~= iv);
            }
            JsonValue::Array(out)
        },
        JsonValue::Object(entries) => {
            let mut out: Vec<(String, JsonValue)> = Vec::new();
            let ghost ev = view_entries(entries@);
            proof {
                lemma_view_entries(entries@);
            }
            let mut i: usize = 0;
            while i < entries.len()
                invariant
                    i <= entries@.len(),
                    path@ == p0,
                    ev == view_entries(entries@),
                    ev.len() == entries@.len(),
                    forall|k: int|
                        0 <= k < entries@.len() ==> #[trigger] ev[k] == (entries@[k].0@, view_json(entries@[k].1)),
                    view_entries(out@) == redact_entries(ev.subrange(0, i as int), path_toks(p0), comp),
                decreases entries@.len() - i,
            {
                proof {
                    assert(*entries == (*current)->Object_0);
                    assert(decreases_to!(*current => (*current)->Object_0));
                    assert(decreases_to!(*entries => entries@));
                    assert(decreases_to!(entries@ => entries@[i as int]));
                    assert(decreases_to!(entries@[i as int] => entries@[i as int].1));
                }
                let key = entries[i].0.clone();
                path.push(PathToken::Key(entries[i].0.clone()));
                proof {
                    assert(path_toks(path@) =~= path_toks(p0).push(PathTok::Key(key@)));
                }
                let next = redact_walk(&entries[i].1, path, compiled);
                path.pop();
                proof {
                    assert(path@ =~= p0);
                    let pre = ev.subrange(0, i + 1);
                    assert(pre.drop_last() =~= ev.subrange(0, i as int));
                    assert(pre.last() == ev[i as int]);
                }
                let ghost before = out@;
                out.push((key, next));
                proof {
                    assert(out@.drop_last() =~= before);
                }
                i = i + 1;
            }
            proof {
                assert(ev.subrange(0, i as int) =~= ev);
            }
            JsonValue::Object(out)
        },
        _ => current.deep_clone(),
    }
}

/// Apply redactions to a JSON value: every value at a path that a
/// (trimmed, non-blank) ignore pattern matches becomes `"[ignored]"`.
pub fn apply_redactions(value: JsonValue, ignore_patterns: &[String]) -> (r: JsonValue)
    ensures
        r@ == redacted(value@, strings_view(ignore_patterns@)),
{
    if ignore_patterns.len() == 0 {
        return value;
    }
    let compiled = compile_patterns(ignore_patterns);
    let mut path: Vec<PathToken> = Vec::new();
    proof {
        assert(path_toks(path@) =~= Seq::<PathTok>::empty());
    }
    redact_walk(&value, &mut path, compiled.as_slice())
}

proof fn lemma_redact_items_len(items: Seq<Json>, path: Seq<PathTok>, comp: Seq<Seq<PatTok>>)
    ensures
        redact_items(items, path, comp).len() == items.len(),
        forall|i: int|
            0 <= i < items.len() ==> #[trigger] redact_items(items, path, comp)[i] == redact(
                items[i],
                path.push(PathTok::Index(i as nat)),
                comp,
            ),
    decreases items.len(),
{
    if items.len() > 0 {
        lemma_redact_items_len(items.drop_last(), path, comp);
    }
}

proof fn lemma_redact_entries_len(es: Seq<(Seq<char>, Json)>, path: Seq<PathTok>, comp: Seq<Seq<PatTok>>)
    ensures
        redact_entries(es, path, comp).len() == es.len(),
        forall|i: int|
            0 <= i < es.len() ==> #[trigger] redact_entries(es, path, comp)[i] == (
                es[i].0,
                redact(es[i].1, path.push(PathTok::Key(es[i].0)), comp),
            ),
    decreases es.len(),
{
    if es.len() > 0 {
        lemma_redact_entries_len(es.drop_last(), path, comp);
    }
}

proof fn lemma_redact_twice(v: Json, path: Seq<PathTok>, comp: Seq<Seq<PatTok>>)
    ensures
        redact(redact(v, path, comp), path, comp) == redact(v, path, comp),
    decreases json_size(v), 0int,
{
    if !redacts(path, comp) {
        match v {
            Json::Array(items) => {
                lemma_redact_items_twice(items, path, comp);
            },
            Json::Object(es) => {
                lemma_redact_entries_twice(es, path, comp);
            },
            _ => {},
        }
    }
}

proof fn lemma_redact_items_twice(items: Seq<Json>, path: Seq<PathTok>, comp: Seq<Seq<PatTok>>)
    ensures
        redact_items(redact_items(items, path, comp), path, comp) == redact_items(items, path, comp),
    decreases items_size(items), 1int,
{
    if items.len() > 0 {
        let once = redact_items(items, path, comp);
        lemma_redact_items_len(items.drop_last(), path, comp);
        assert(once.drop_last() == redact_items(items.drop_last(), path, comp));
        lemma_json_size_pos(items.last());
        lemma_redact_items_twice(items.drop_last(), path, comp);
        lemma_redact_twice(items.last(), path.push(PathTok::Index((items.len() - 1) as nat)), comp);
    }
}

proof fn lemma_redact_entries_twice(es: Seq<(Seq<char>, Json)>, path: Seq<PathTok>, comp: Seq<Seq<PatTok>>)
    ensures
        redact_entries(redact_entries(es, path, comp), path, comp) == redact_entries(es, path, comp),
    decreases entries_size(es), 1int,
{
    if es.len() > 0 {
        let once = redact_entries(es, path, comp);
        lemma_redact_entries_len(es.drop_last(), path, comp);
        assert(once.drop_last() == redact_entries(es.drop_last(), path, comp));
        lemma_json_size_pos(es.last().1);
        lemma_redact_entries_twice(es.drop_last(), path, comp);
        lemma_redact_twice(es.last().1, path.push(PathTok::Key(es.last().0)), comp);
    }
}

/// Redaction is idempotent: redacting an already redacted document under
/// the same ignore patterns changes nothing.
pub proof fn lemma_redaction_idempotent(v: Json, patterns: Seq<Seq<char>>)
    ensures
        redacted(redacted(v, patterns), patterns) == redacted(v, patterns),
{
    if patterns.len() > 0 {
        lemma_redact_twice(v, Seq::empty(), compiled(patterns));
    }
}

/// Without ignore patterns a document is left as it is.
pub proof fn lemma_no_patterns_no_redaction(v: Json)
    ensures
        redacted(v, Seq::empty()) == v,
{
}


// ---------------------------------------------------------------------------
// Structural diff.
// ---------------------------------------------------------------------------

/// Which side of a comparison lacks a value.
#[derive(Clone, Copy, Debug, PartialEq, Eq, Structural)]
pub enum DiffKind {
    MissingExpected,
    MissingActual,
}

/// Difference entry emitted when snapshot comparison fails.
pub struct DiffEntry {
    pub path: String,
    pub expected: JsonValue,
    pub actual: JsonValue,
    pub kind: Option<DiffKind>,
}

/// A difference as plain values.
pub struct DiffM {
    pub path: Seq<char>,
    pub expected: Json,
    pub actual: Json,
    pub kind: Option<DiffKind>,
}

pub open spec fn diff_view(d: DiffEntry) -> DiffM {
    DiffM { path: d.path@, expected: d.expected@, actual: d.actual@, kind: d.kind }
}

pub open spec fn diffs_view(s: Seq<DiffEntry>) -> Seq<DiffM> {
    s.map_values(|d: DiffEntry| diff_view(d))
}

/// The keys of a list of object entries.
pub open spec fn entry_keys(es: Seq<(Seq<char>, Json)>) -> Seq<Seq<char>> {
    es.map_values(|e: (Seq<char>, Json)| e.0)
}

/// The keys of two objects together, in sorted order without repeats.
pub open spec fn key_union(es: Seq<(Seq<char>, Json)>, as_: Seq<(Seq<char>, Json)>) -> Seq<Seq<char>> {
    choose|ks: Seq<Seq<char>>|
        strictly_sorted(ks) && forall|k: Seq<char>|
            ks.contains(k) <==> (entry_keys(es).contains(k) || entry_keys(as_).contains(k))
}

/// A value present on one side only.
pub open spec fn one_sided(path: Seq<PathTok>, expected: Json, actual: Json, kind: DiffKind) -> DiffM {
    DiffM { path: path_text(path), expected, actual, kind: Some(kind) }
}

/// The differences between two documents at `path`: none when equal; for
/// two arrays, index by index; for two objects, key by key in sorted
/// order; otherwise the two values themselves.
pub open spec fn diff(e: Json, a: Json, path: Seq<PathTok>) -> Seq<DiffM>
    decreases json_size(e) + json_size(a), 0int, 0int,
{
    if e == a {
        Seq::empty()
    } else {
        match e {
            Json::Array(es) => match a {
                Json::Array(as_) => diff_items(
                    es,
                    as_,
                    path,
                    if es.len() >= as_.len() { es.len() } else { as_.len() },
                ),
                _ => seq![DiffM { path: path_text(path), expected: e, actual: a, kind: None }],
            },
            Json::Object(es) => match a {
                Json::Object(as_) => diff_keys(es, as_, path, key_union(es, as_)),
                _ => seq![DiffM { path: path_text(path), expected: e, actual: a, kind: None }],
            },
            _ => seq![DiffM { path: path_text(path), expected: e, actual: a, kind: None }],
        }
    }
}

/// The differences at index `i` of two arrays.
pub open spec fn diff_at(es: Seq<Json>, as_: Seq<Json>, path: Seq<PathTok>, i: nat) -> Seq<DiffM>
    decreases items_size(es) + items_size(as_), 1int, 0int,
{
    let p = path.push(PathTok::Index(i));
    if i >= es.len() {
        seq![one_sided(p, Json::Null, as_[i as int], DiffKind::MissingExpected)]
    } else if i >= as_.len() {
        seq![one_sided(p, es[i as int], Json::Null, DiffKind::MissingActual)]
    } else {
        proof {
            lemma_item_size(es, i as int);
            lemma_item_size(as_, i as int);
        }
        diff(es[i as int], as_[i as int], p)
    }
}

/// The differences at the first `n` indexes of two arrays.
pub open spec fn diff_items(es: Seq<Json>, as_: Seq<Json>, path: Seq<PathTok>, n: nat) -> Seq<DiffM>
    decreases items_size(es) + items_size(as_), 1int, n,
{
    if n == 0 {
        Seq::empty()
    } else {
        diff_items(es, as_, path, (n - 1) as nat) + diff_at(es, as_, path, (n - 1) as nat)
    }
}

/// The differences under key `k` of two objects.
pub open spec fn diff_key(es: Seq<(Seq<char>, Json)>, as_: Seq<(Seq<char>, Json)>, path: Seq<PathTok>, k: Seq<char>) -> Seq<
    DiffM,
>
    decreases entries_size(es) + entries_size(as_), 1int, 0int,
{
    let p = path.push(PathTok::Key(k));
    match entries_get(es, k) {
        Some(x) => match entries_get(as_, k) {
            Some(y) => {
                proof {
                    lemma_entries_get_size(es, k);
                    lemma_entries_get_size(as_, k);
                }
                diff(x, y, p)
            },
            None => seq![one_sided(p, x, Json::Null, DiffKind::MissingActual)],
        },
        None => match entries_get(as_, k) {
            Some(y) => seq![one_sided(p, Json::Null, y, DiffKind::MissingExpected)],
            None => Seq::empty(),
        },
    }
}

/// The differences under each of the keys `ks` of two objects, in order.
pub open spec fn diff_keys(
    es: Seq<(Seq<char>, Json)>,
    as_: Seq<(Seq<char>, Json)>,
    path: Seq<PathTok>,
    ks: Seq<Seq<char>>,
) -> Seq<DiffM>
    decreases entries_size(es) + entries_size(as_), 1int, ks.len(),
{
    if ks.len() == 0 {
        Seq::empty()
    } else {
        diff_keys(es, as_, path, ks.drop_last()) + diff_key(es, as_, path, ks.last())
    }
}

pub proof fn lemma_entries_get_has(es: Seq<(Seq<char>, Json)>, k: Seq<char>)
    ensures
        (entries_get(es, k) is Some) <==> entry_keys(es).contains(k),
        entries_get(es, k) matches Some(v) ==> exists|i: int| 0 <= i < es.len() && es[i] == (k, v),
    decreases es.len(),
{
    if es.len() > 0 {
        lemma_entries_get_has(es.drop_first(), k);
        assert(entry_keys(es.drop_first()) =~= entry_keys(es).drop_first());
        if es[0].0 != k {
            if entry_keys(es).contains(k) {
                let i = choose|i: int| 0 <= i < entry_keys(es).len() && entry_keys(es)[i] == k;
                assert(i != 0);
                assert(entry_keys(es.drop_first())[i - 1] == k);
            }
            if entries_get(es, k) is Some {
                let v = entries_get(es, k)->0;
                let i = choose|i: int| 0 <= i < es.drop_first().len() && es.drop_first()[i] == (k, v);
                assert(es[i + 1] == (k, v));
            }
        } else {
            assert(entry_keys(es)[0] == k);
            assert(es[0] == (k, es[0].1));
        }
    }
}

/// Deep equality of two documents.
#[verifier::loop_isolation(false)]
#[verifier::spinoff_prover]
#[verifier::rlimit(40)]
pub fn json_equal(a: &JsonValue, b: &JsonValue) -> (r: bool)
    ensures
        r == (a@ == b@),
    decreases a,
{
    match (a, b) {
        (JsonValue::Null, JsonValue::Null) => true,
        (JsonValue::Bool(x), JsonValue::Bool(y)) => *x == *y,
        (JsonValue::Number(x), JsonValue::Number(y)) => crate::text::str_eq(x.as_str(), y.as_str()),
        (JsonValue::String(x), JsonValue::String(y)) => crate::text::str_eq(x.as_str(), y.as_str()),
        (JsonValue::Array(xs), JsonValue::Array(ys)) => {
            proof {
                lemma_view_items(xs@);
                lemma_view_items(ys@);
            }
            if xs.len() != ys.len() {
                return false;
            }
            let mut i: usize = 0;
            while i < xs.len()
                invariant
                    i <= xs@.len() == ys@.len(),
                    forall|k: int| 0 <= k < i ==> view_json(#[trigger] xs@[k]) == view_json(ys@[k]),
                decreases xs@.len() - i,
            {
                proof {
                    assert(*xs == (*a)->Array_0);
                    assert(decreases_to!(*a => (*a)->Array_0));
                    assert(decreases_to!(*xs => xs@));
                    assert(decreases_to!(xs@ => xs@[i as int]));
                }
                if !json_equal(&xs[i], &ys[i]) {
                    proof {
                        assert(view_items(xs@)[i as int] != view_items(ys@)[i as int]);
                    }
                    return false;
                }
                i = i + 1;
            }
            proof {
                assert(view_items(xs@) =~= view_items(ys@));
            }
            true
        },
        (JsonValue::Object(xs), JsonValue::Object(ys)) => {
            proof {
                lemma_view_entries(xs@);
                lemma_view_entries(ys@);
            }
            if xs.len() != ys.len() {
                return false;
            }
            let mut i: usize = 0;
            while i < xs.len()
                invariant
                    i <= xs@.len() == ys@.len(),
                    forall|k: int|
                        0 <= k < i ==> (#[trigger] xs@[k]).0@ == ys@[k].0@ && view_json(xs@[k].1) == view_json(
                            ys@[k].1,
                        ),
                decreases xs@.len() - i,
            {
                proof {
                    assert(*xs == (*a)->Object_0);
                    assert(decreases_to!(*a => (*a)->Object_0));
                    assert(decreases_to!(*xs => xs@));
                    assert(decreases_to!(xs@ => xs@[i as int]));
                    assert(decreases_to!(xs@[i as int] => xs@[i as int].1));
                }
                if !crate::text::str_eq(xs[i].0.as_str(), ys[i].0.as_str()) {
                    proof {
                        assert(view_entries(xs@)[i as int] != view_entries(ys@)[i as int]);
                    }
                    return false;
                }
                if !json_equal(&xs[i].1, &ys[i].1) {
                    proof {
                        assert(view_entries(xs@)[i as int] != view_entries(ys@)[i as int]);
                    }
                    return false;
                }
                i = i + 1;
            }
            proof {
                assert(view_entries(xs@) =~= view_entries(ys@));
            }
            true
        },
        _ => false,
    }
}

fn push_diff(diffs: &mut Vec<DiffEntry>, path: &Vec<PathToken>, expected: JsonValue, actual: JsonValue, kind: Option<DiffKind>)
    ensures
        diffs_view(final(diffs)@) == diffs_view(old(diffs)@).push(
            DiffM { path: path_text(path_toks(path@)), expected: expected@, actual: actual@, kind },
        ),
{
    let ghost before = diffs@;
    diffs.push(DiffEntry { path: path_to_string(path.as_slice()), expected, actual, kind });
    proof {
        assert(diffs_view(diffs@) =~= diffs_view(before).push(diff_view(diffs@.last())));
    }
}

proof fn lemma_push_contains(s: Seq<Seq<char>>, x: Seq<char>)
    ensures
        forall|k: Seq<char>| #[trigger] s.push(x).contains(k) <==> (s.contains(k) || k == x),
{
    assert forall|k: Seq<char>| #[trigger] s.push(x).contains(k) <==> (s.contains(k) || k == x) by {
        let t = s.push(x);
        if t.contains(k) {
            let m = choose|m: int| 0 <= m < t.len() && t[m] == k;
            if m < s.len() {
                assert(s[m] == k);
            }
        }
        if s.contains(k) {
            let m = choose|m: int| 0 <= m < s.len() && s[m] == k;
            assert(t[m] == k);
        }
        if k == x {
            assert(t[s.len() as int] == k);
        }
    }
}

#[verifier::loop_isolation(false)]
fn union_of_keys(xs: &Vec<(String, JsonValue)>, ys: &Vec<(String, JsonValue)>) -> (r: Vec<String>)
    ensures
        strings_view(r@) == key_union(view_entries(xs@), view_entries(ys@)),
{
    let ghost ex = view_entries(xs@);
    let ghost ey = view_entries(ys@);
    proof {
        lemma_view_entries(xs@);
        lemma_view_entries(ys@);
    }
    let mut keys: Vec<String> = Vec::new();
    proof {
        assert(strings_view(keys@) =~= Seq::<Seq<char>>::empty());
    }
    let mut i: usize = 0;
    while i < xs.len()
        invariant
            i <= xs@.len(),
            strictly_sorted(strings_view(keys@)),
            forall|k: Seq<char>| strings_view(keys@).contains(k) <==> entry_keys(ex).subrange(0, i as int).contains(k),
        decreases xs@.len() - i,
    {
        sorted_insert(&mut keys, xs[i].0.clone());
        proof {
            assert(entry_keys(ex)[i as int] == xs@[i as int].0@);
            assert(entry_keys(ex).subrange(0, i + 1) =~= entry_keys(ex).subrange(0, i as int).push(xs@[i as int].0@));
            lemma_push_contains(entry_keys(ex).subrange(0, i as int), xs@[i as int].0@);
        }
        i = i + 1;
    }
    let mut j: usize = 0;
    while j < ys.len()
        invariant
            i == xs@.len(),
            j <= ys@.len(),
            strictly_sorted(strings_view(keys@)),
            forall|k: Seq<char>|
                strings_view(keys@).contains(k) <==> (entry_keys(ex).subrange(0, i as int).contains(k)
                    || entry_keys(ey).subrange(0, j as int).contains(k)),
        decreases ys@.len() - j,
    {
        sorted_insert(&mut keys, ys[j].0.clone());
        proof {
            assert(entry_keys(ey)[j as int] == ys@[j as int].0@);
            assert(entry_keys(ey).subrange(0, j + 1) =~= entry_keys(ey).subrange(0, j as int).push(ys@[j as int].0@));
            lemma_push_contains(entry_keys(ey).subrange(0, j as int), ys@[j as int].0@);
        }
        j = j + 1;
    }
    proof {
        assert(entry_keys(ex).subrange(0, i as int) =~= entry_keys(ex));
        assert(entry_keys(ey).subrange(0, j as int) =~= entry_keys(ey));
        let u = key_union(ex, ey);
        assert(strictly_sorted(u) && forall|k: Seq<char>|
            u.contains(k) <==> (entry_keys(ex).contains(k) || entry_keys(ey).contains(k)));
        lemma_sorted_unique(strings_view(keys@), u);
    }
    keys
}

fn cloned_or_null(v: Option<&JsonValue>) -> (r: JsonValue)
    ensures
        r@ == match v {
            Some(x) => x@,
            None => Json::Null,
        },
{
    match v {
        Some(x) => x.deep_clone(),
        None => JsonValue::Null,
    }
}

#[verifier::loop_isolation(false)]
#[verifier::spinoff_prover]
#[verifier::rlimit(60)]
fn diff_walk(expected: &JsonValue, actual: &JsonValue, path: &mut Vec<PathToken>, diffs: &mut Vec<DiffEntry>)
    ensures
        final(path)@ == old(path)@,
        diffs_view(final(diffs)@) == diffs_view(old(diffs)@) + diff(expected@, actual@, path_toks(old(path)@)),
    decreases json_size(expected@) + json_size(actual@),
{
    let ghost p0 = path@;
    let ghost d0 = diffs_view(diffs@);
    if json_equal(expected, actual) {
        assert(diffs_view(diffs@) =~= d0 + diff(expected@, actual@, path_toks(p0)));
        return;
    }
    match (expected, actual) {
        (JsonValue::Array(es), JsonValue::Array(as_)) => {
            let ghost ev = view_items(es@);
            let ghost av = view_items(as_@);
            proof {
                lemma_view_items(es@);
                lemma_view_items(as_@);
            }
            let max_len = if es.len() >= as_.len() {
                es.len()
            } else {
                as_.len()
            };
            let mut index: usize = 0;
            while index < max_len
                invariant
                    index <= max_len,
                    max_len == (if ev.len() >= av.len() { ev.len() } else { av.len() }),
                    path@ == p0,
                    ev == view_items(es@),
                    av == view_items(as_@),
                    ev.len() == es@.len(),
                    av.len() == as_@.len(),
                    forall|k: int| 0 <= k < es@.len() ==> #[trigger] ev[k] == view_json(es@[k]),
                    forall|k: int| 0 <= k < as_@.len() ==> #[trigger] av[k] == view_json(as_@[k]),
                    diffs_view(diffs@) == d0 + diff_items(ev, av, path_toks(p0), index as nat),
                decreases max_len - index,
            {
                path.push(PathToken::Index(index));
                let ghost before = diffs_view(diffs@);
                let ghost pk = path_toks(p0).push(PathTok::Index(index as nat));
                proof {
                    assert(path_toks(path@) =~= pk);
                }
                if index >= es.len() {
                    push_diff(diffs, path, JsonValue::Null, cloned_or_null(as_.get(index)), Some(DiffKind::MissingExpected));
                } else if index >= as_.len() {
                    push_diff(diffs, path, cloned_or_null(es.get(index)), JsonValue::Null, Some(DiffKind::MissingActual));
                } else {
                    proof {
                        lemma_item_size(ev, index as int);
                        lemma_item_size(av, index as int);
                    }
                    diff_walk(&es[index], &as_[index], path, diffs);
                }
                path.pop();
                proof {
                    assert(path@ =~= p0);
                    assert(diffs_view(diffs@) =~= before + diff_at(ev, av, path_toks(p0), index as nat));
                    assert(diffs_view(diffs@) =~= d0 + diff_items(ev, av, path_toks(p0), (index + 1) as nat));
                }
                index = index + 1;
            }
        },
        (JsonValue::Object(es), JsonValue::Object(as_)) => {
            let ghost ev = view_entries(es@);
            let ghost av = view_entries(as_@);
            let keys = union_of_keys(es, as_);
            let ghost ks = strings_view(keys@);
            let mut j: usize = 0;
            proof {
                assert(ks.subrange(0, 0) =~= Seq::<Seq<char>>::empty());
                assert(diffs_view(diffs@) =~= d0 + diff_keys(ev, av, path_toks(p0), ks.subrange(0, 0)));
            }
            while j < keys.len()
                invariant
                    j <= keys@.len(),
                    ks == strings_view(keys@),
                    ks == key_union(ev, av),
                    path@ == p0,
                    expected@ == Json::Object(ev),
                    actual@ == Json::Object(av),
                    diffs_view(diffs@) == d0 + diff_keys(ev, av, path_toks(p0), ks.subrange(0, j as int)),
                decreases keys@.len() - j,
            {
                let key = &keys[j];
                path.push(PathToken::Key(key.clone()));
                let ghost before = diffs_view(diffs@);
                proof {
                    assert(path_toks(path@) =~= path_toks(p0).push(PathTok::Key(key@)));
                }
                match (expected.get(key.as_str()), actual.get(key.as_str())) {
                    (Some(x), Some(y)) => {
                        proof {
                            lemma_entries_get_size(ev, key@);
                            lemma_entries_get_size(av, key@);
                        }
                        diff_walk(x, y, path, diffs);
                    },
                    (None, Some(y)) => {
                        push_diff(diffs, path, JsonValue::Null, y.deep_clone(), Some(DiffKind::MissingExpected));
                    },
                    (Some(x), None) => {
                        push_diff(diffs, path, x.deep_clone(), JsonValue::Null, Some(DiffKind::MissingActual));
                    },
                    (None, None) => {},
                }
                path.pop();
                proof {
                    assert(path@ =~= p0);
                    assert(diffs_view(diffs@) =~= before + diff_key(ev, av, path_toks(p0), key@));
                    let pre = ks.subrange(0, j + 1);
                    assert(pre.drop_last() =~= ks.subrange(0, j as int));
                    assert(pre.last() == key@);
                    assert(diffs_view(diffs@) =~= d0 + diff_keys(ev, av, path_toks(p0), pre));
                }
                j = j + 1;
            }
            proof {
                assert(ks.subrange(0, j as int) =~= ks);
            }
        },
        _ => {
            push_diff(diffs, path, expected.deep_clone(), actual.deep_clone(), None);
            proof {
                assert(diffs_view(diffs@) =~= d0 + diff(expected@, actual@, path_toks(p0)));
            }
        },
    }
}

/// Compute the differences between two JSON documents.
pub fn diff_objects(expected: &JsonValue, actual: &JsonValue) -> (r: Vec<DiffEntry>)
    ensures
        diffs_view(r@) == diff(expected@, actual@, Seq::empty()),
{
    let mut diffs: Vec<DiffEntry> = Vec::new();
    let mut path: Vec<PathToken> = Vec::new();
    proof {
        assert(path_toks(path@) =~= Seq::<PathTok>::empty());
        assert(diffs_view(diffs@) =~= Seq::<DiffM>::empty());
    }
    diff_walk(expected, actual, &mut path, &mut diffs);
    proof {
        assert(diffs_view(diffs@) =~= diff(expected@, actual@, Seq::empty()));
    }
    diffs
}


// ---------------------------------------------------------------------------
// When a diff is empty.
// ---------------------------------------------------------------------------

/// A document as `serde_json` holds one: the keys of every object strictly
/// ascending, hence distinct.
pub open spec fn canonical(j: Json) -> bool
    decreases json_size(j), 0int,
{
    match j {
        Json::Array(items) => items_canonical(items),
        Json::Object(es) => strictly_sorted(entry_keys(es)) && entries_canonical(es),
        _ => true,
    }
}

/// Every item is canonical.
pub open spec fn items_canonical(items: Seq<Json>) -> bool
    decreases items_size(items), 1int,
{
    if items.len() == 0 {
        true
    } else {
        proof {
            lemma_json_size_pos(items.last());
        }
        items_canonical(items.drop_last()) && canonical(items.last())
    }
}

/// Every entry value is canonical.
pub open spec fn entries_canonical(es: Seq<(Seq<char>, Json)>) -> bool
    decreases entries_size(es), 1int,
{
    if es.len() == 0 {
        true
    } else {
        proof {
            lemma_json_size_pos(es.last().1);
        }
        entries_canonical(es.drop_last()) && canonical(es.last().1)
    }
}

proof fn lemma_items_canonical(items: Seq<Json>)
    requires
        items_canonical(items),
    ensures
        forall|i: int| 0 <= i < items.len() ==> canonical(#[trigger] items[i]),
    decreases items.len(),
{
    if items.len() > 0 {
        lemma_items_canonical(items.drop_last());
        assert forall|i: int| 0 <= i < items.len() implies canonical(#[trigger] items[i]) by {
            if i < items.len() - 1 {
                assert(items.drop_last()[i] == items[i]);
            }
        }
    }
}

proof fn lemma_entries_canonical(es: Seq<(Seq<char>, Json)>)
    requires
        entries_canonical(es),
    ensures
        forall|i: int| 0 <= i < es.len() ==> canonical(#[trigger] es[i].1),
    decreases es.len(),
{
    if es.len() > 0 {
        lemma_entries_canonical(es.drop_last());
        assert forall|i: int| 0 <= i < es.len() implies canonical(#[trigger] es[i].1) by {
            if i < es.len() - 1 {
                assert(es.drop_last()[i] == es[i]);
            }
        }
    }
}

proof fn lemma_key_union(es: Seq<(Seq<char>, Json)>, as_: Seq<(Seq<char>, Json)>)
    ensures
        strictly_sorted(key_union(es, as_)),
        forall|k: Seq<char>|
            #[trigger] key_union(es, as_).contains(k) <==> (entry_keys(es).contains(k) || entry_keys(as_).contains(k)),
{
    let a = entry_keys(es);
    let b = entry_keys(as_);
    crate::ordered::lemma_sorted_exists(a + b);
    assert forall|k: Seq<char>| (a + b).contains(k) <==> (a.contains(k) || b.contains(k)) by {
        if (a + b).contains(k) {
            let m = choose|m: int| 0 <= m < (a + b).len() && (a + b)[m] == k;
            if m < a.len() {
                assert(a[m] == k);
            } else {
                assert(b[m - a.len()] == k);
            }
        }
        if a.contains(k) {
            let m = choose|m: int| 0 <= m < a.len() && a[m] == k;
            assert((a + b)[m] == k);
        }
        if b.contains(k) {
            let m = choose|m: int| 0 <= m < b.len() && b[m] == k;
            assert((a + b)[m + a.len()] == k);
        }
    }
}

proof fn lemma_diff_items_has(es: Seq<Json>, as_: Seq<Json>, path: Seq<PathTok>, n: nat, i: nat)
    requires
        i < n,
    ensures
        diff_items(es, as_, path, n).len() >= diff_at(es, as_, path, i).len(),
    decreases n,
{
    if i < n - 1 {
        lemma_diff_items_has(es, as_, path, (n - 1) as nat, i);
    }
}

proof fn lemma_diff_keys_has(
    es: Seq<(Seq<char>, Json)>,
    as_: Seq<(Seq<char>, Json)>,
    path: Seq<PathTok>,
    ks: Seq<Seq<char>>,
    m: int,
)
    requires
        0 <= m < ks.len(),
    ensures
        diff_keys(es, as_, path, ks).len() >= diff_key(es, as_, path, ks[m]).len(),
    decreases ks.len(),
{
    if m < ks.len() - 1 {
        lemma_diff_keys_has(es, as_, path, ks.drop_last(), m);
    }
}

proof fn lemma_get_sorted(es: Seq<(Seq<char>, Json)>, i: int)
    requires
        strictly_sorted(entry_keys(es)),
        0 <= i < es.len(),
    ensures
        entries_get(es, es[i].0) == Some(es[i].1),
    decreases es.len(),
{
    if i > 0 {
        let ks = entry_keys(es);
        assert(ks[0] == es[0].0 && ks[i] == es[i].0);
        assert(seq_less(ks[0], ks[i]));
        lemma_less_irreflexive(es[i].0);
        let t = es.drop_first();
        assert(entry_keys(t) =~= ks.drop_first());
        assert(strictly_sorted(entry_keys(t))) by {
            assert forall|p: int, q: int| 0 <= p < q < entry_keys(t).len() implies seq_less(
                #[trigger] entry_keys(t)[p],
                #[trigger] entry_keys(t)[q],
            ) by {
                assert(entry_keys(t)[p] == ks[p + 1] && entry_keys(t)[q] == ks[q + 1]);
            }
        }
        lemma_get_sorted(t, i - 1);
        assert(t[i - 1] == es[i]);
    }
}

/// Two canonical documents have no differences exactly when they are
/// equal.
pub proof fn lemma_diff_empty_iff_equal(e: Json, a: Json, path: Seq<PathTok>)
    requires
        canonical(e),
        canonical(a),
    ensures
        (diff(e, a, path).len() == 0) <==> (e == a),
    decreases json_size(e) + json_size(a),
{
    if e != a {
        match e {
            Json::Array(es) => match a {
                Json::Array(as_) => {
                    let n: nat = if es.len() >= as_.len() { es.len() } else { as_.len() };
                    lemma_items_canonical(es);
                    lemma_items_canonical(as_);
                    if es.len() != as_.len() {
                        let i: nat = if es.len() < as_.len() { es.len() } else { as_.len() };
                        lemma_diff_items_has(es, as_, path, n, i);
                    } else {
                        assert(!(es =~= as_));
                        let i = choose|i: int| 0 <= i < es.len() && es[i] != as_[i];
                        lemma_item_size(es, i);
                        lemma_item_size(as_, i);
                        lemma_diff_empty_iff_equal(es[i], as_[i], path.push(PathTok::Index(i as nat)));
                        lemma_diff_items_has(es, as_, path, n, i as nat);
                    }
                },
                _ => {},
            },
            Json::Object(es) => match a {
                Json::Object(as_) => {
                    lemma_key_union(es, as_);
                    let ks = key_union(es, as_);
                    let ka = entry_keys(es);
                    let kb = entry_keys(as_);
                    if exists|k: Seq<char>| ka.contains(k) != kb.contains(k) {
                        let k = choose|k: Seq<char>| ka.contains(k) != kb.contains(k);
                        assert(ks.contains(k));
                        let m = choose|m: int| 0 <= m < ks.len() && ks[m] == k;
                        lemma_entries_get_has(es, k);
                        lemma_entries_get_has(as_, k);
                        lemma_diff_keys_has(es, as_, path, ks, m);
                    } else {
                        crate::ordered::lemma_sorted_unique(ka, kb);
                        assert(es.len() == as_.len());
                        assert(!(es =~= as_));
                        let i = choose|i: int| 0 <= i < es.len() && es[i] != as_[i];
                        assert(ka[i] == kb[i]);
                        let k = es[i].0;
                        lemma_get_sorted(es, i);
                        lemma_get_sorted(as_, i);
                        lemma_entries_canonical(es);
                        lemma_entries_canonical(as_);
                        crate::json::lemma_entry_size(es, i);
                        crate::json::lemma_entry_size(as_, i);
                        lemma_diff_empty_iff_equal(es[i].1, as_[i].1, path.push(PathTok::Key(k)));
                        assert(ka[i] == k);
                        assert(ks.contains(k));
                        let m = choose|m: int| 0 <= m < ks.len() && ks[m] == k;
                        lemma_diff_keys_has(es, as_, path, ks, m);
                    }
                },
                _ => {},
            },
            _ => {},
        }
    }
}

// ---------------------------------------------------------------------------
// Filtering and rendering diffs.
// ---------------------------------------------------------------------------

/// The differences whose path no compiled pattern matches, in order.
pub open spec fn kept(ds: Seq<DiffM>, comp: Seq<Seq<PatTok>>) -> Seq<DiffM>
    decreases ds.len(),
{
    if ds.len() == 0 {
        Seq::empty()
    } else {
        kept(ds.drop_last(), comp) + if redacts(path_tokens(ds.last().path), comp) {
            Seq::<DiffM>::empty()
        } else {
            seq![ds.last()]
        }
    }
}

/// What `filter_diff_entries` keeps under some ignore patterns.
pub open spec fn filtered(ds: Seq<DiffM>, patterns: Seq<Seq<char>>) -> Seq<DiffM> {
    if patterns.len() == 0 {
        ds
    } else {
        kept(ds, compiled(patterns))
    }
}

fn clone_entry(d: &DiffEntry) -> (r: DiffEntry)
    ensures
        diff_view(r) == diff_view(*d),
{
    DiffEntry {
        path: d.path.clone(),
        expected: d.expected.deep_clone(),
        actual: d.actual.deep_clone(),
        kind: d.kind,
    }
}

/// Drop the differences whose path an ignore pattern matches.
pub fn filter_diff_entries(entries: Vec<DiffEntry>, ignore_patterns: &[String]) -> (r: Vec<DiffEntry>)
    ensures
        diffs_view(r@) == filtered(diffs_view(entries@), strings_view(ignore_patterns@)),
{
    if ignore_patterns.len() == 0 {
        return entries;
    }
    let compiled = compile_patterns(ignore_patterns);
    let ghost comp = pats_view(compiled@);
    let ghost ds = diffs_view(entries@);
    let mut out: Vec<DiffEntry> = Vec::new();
    let mut i: usize = 0;
    proof {
        assert(diffs_view(out@) =~= kept(ds.subrange(0, 0), comp));
    }
    while i < entries.len()
        invariant
            i <= entries@.len(),
            ds == diffs_view(entries@),
            comp == pats_view(compiled@),
            diffs_view(out@) == kept(ds.subrange(0, i as int), comp),
        decreases entries@.len() - i,
    {
        let tokens = parse_path(entries[i].path.as_str());
        let ghost before = out@;
        proof {
            let pre = ds.subrange(0, i + 1);
            assert(pre.drop_last() =~= ds.subrange(0, i as int));
            assert(pre.last() == diff_view(entries@[i as int]));
        }
        if !should_redact(tokens.as_slice(), compiled.as_slice()) {
            out.push(clone_entry(&entries[i]));
            proof {
                assert(diffs_view(out@) =~= diffs_view(before).push(diff_view(entries@[i as int])));
            }
        } else {
            assert(diffs_view(out@) =~= diffs_view(before));
        }
        i = i + 1;
    }
    proof {
        assert(ds.subrange(0, i as int) =~= ds);
    }
    out
}

/// How a value reads in a diff line: `[missing]` for the absent side,
/// strings in double quotes as they are, `null`, else compact JSON.
pub open spec fn value_text(v: Json, missing: bool) -> Seq<char> {
    if missing {
        "[missing]"@
    } else {
        match v {
            Json::Str(t) => seq!['"'] + t + seq!['"'],
            Json::Null => "null"@,
            _ => json_text(v),
        }
    }
}

fn format_value(value: &JsonValue, missing: bool) -> (r: String)
    ensures
        r@ == value_text(value@, missing),
{
    if missing {
        return String::from_str("[missing]");
    }
    match value {
        JsonValue::String(t) => {
            let mut out = String::from_str("\"");
            out.append(t.as_str());
            out.append("\"");
            proof {
                reveal_strlit("\"");
                assert(out@ =~= seq!['"'] + t@ + seq!['"']);
            }
            out
        },
        JsonValue::Null => String::from_str("null"),
        _ => value.to_json_text(),
    }
}

/// One line of a diff report.
pub open spec fn diff_line(d: DiffM) -> Seq<char> {
    "- "@ + d.path + ": expected "@ + value_text(d.expected, d.kind == Some(DiffKind::MissingExpected))
        + " got "@ + value_text(d.actual, d.kind == Some(DiffKind::MissingActual))
}

/// The report of a list of differences: none when there are none.
pub open spec fn diff_report(ds: Seq<DiffM>) -> Option<Seq<char>> {
    if ds.len() == 0 {
        None
    } else {
        Some("Differences:\n"@ + crate::text::join_with(ds.map_values(|d: DiffM| diff_line(d)), "\n"@))
    }
}

/// Format a list of diffs for human-readable output.
pub fn format_diff(entries: &[DiffEntry]) -> (r: Option<String>)
    ensures
        opt_view(r) == diff_report(diffs_view(entries@)),
{
    if entries.len() == 0 {
        return None;
    }
    let ghost ds = diffs_view(entries@);
    let mut lines: Vec<String> = Vec::new();
    let mut i: usize = 0;
    while i < entries.len()
        invariant
            i <= entries@.len(),
            ds == diffs_view(entries@),
            strings_view(lines@) == ds.subrange(0, i as int).map_values(|d: DiffM| diff_line(d)),
        decreases entries@.len() - i,
    {
        let e = &entries[i];
        let expected_missing = match e.kind {
            Some(DiffKind::MissingExpected) => true,
            _ => false,
        };
        let actual_missing = match e.kind {
            Some(DiffKind::MissingActual) => true,
            _ => false,
        };
        let mut line = String::from_str("- ");
        line.append(e.path.as_str());
        line.append(": expected ");
        line.append(format_value(&e.expected, expected_missing).as_str());
        line.append(" got ");
        line.append(format_value(&e.actual, actual_missing).as_str());
        let ghost before = lines@;
        lines.push(line);
        proof {
            assert(ds[i as int] == diff_view(entries@[i as int]));
            assert(line@ =~= diff_line(ds[i as int]));
            assert(strings_view(lines@) =~= strings_view(before).push(line@));
            assert(strings_view(lines@) =~= ds.subrange(0, i + 1).map_values(|d: DiffM| diff_line(d)));
        }
        i = i + 1;
    }
    proof {
        assert(ds.subrange(0, i as int) =~= ds);
    }
    let mut out = String::from_str("Differences:\n");
    out.append(crate::text::join_strings(lines.as_slice(), "\n").as_str());
    Some(out)
}

/// The trimmed, non-blank patterns of a list, in order.
pub open spec fn trimmed_patterns(ps: Seq<Seq<char>>) -> Seq<Seq<char>>
    decreases ps.len(),
{
    if ps.len() == 0 {
        Seq::empty()
    } else {
        trimmed_patterns(ps.drop_last()) + if trim(ps.last()).len() == 0 {
            Seq::<Seq<char>>::empty()
        } else {
            seq![trim(ps.last())]
        }
    }
}

/// A list given or not: its strings, or none.
pub open spec fn opt_list(o: Option<&[String]>) -> Seq<Seq<char>> {
    match o {
        Some(l) => strings_view(l@),
        None => Seq::empty(),
    }
}

fn append_trimmed(out: &mut Vec<String>, items: &[String])
    ensures
        strings_view(final(out)@) == strings_view(old(out)@) + trimmed_patterns(strings_view(items@)),
{
    let ghost start = strings_view(out@);
    let mut i: usize = 0;
    proof {
        assert(strings_view(items@.subrange(0, 0)) =~= Seq::<Seq<char>>::empty());
        assert(strings_view(out@) =~= start + trimmed_patterns(strings_view(items@.subrange(0, 0))));
    }
    while i < items.len()
        invariant
            i <= items@.len(),
            strings_view(out@) == start + trimmed_patterns(strings_view(items@.subrange(0, i as int))),
        decreases items@.len() - i,
    {
        let ghost before = strings_view(out@);
        proof {
            let pre = strings_view(items@.subrange(0, i + 1));
            assert(pre.drop_last() =~= strings_view(items@.subrange(0, i as int)));
            assert(pre.last() == items@[i as int]@);
        }
        let t = crate::text::trim_str(items[i].as_str());
        if crate::text::chars_of(t.as_str()).len() != 0 {
            out.push(t);
            proof {
                assert(strings_view(out@) =~= before.push(trim(items@[i as int]@)));
            }
        } else {
            assert(strings_view(out@) =~= before);
        }
        proof {
            assert(strings_view(out@) =~= start + trimmed_patterns(strings_view(items@.subrange(0, i + 1))));
        }
        i = i + 1;
    }
    proof {
        assert(items@.subrange(0, i as int) =~= items@);
    }
}

proof fn lemma_trimmed_concat(a: Seq<Seq<char>>, b: Seq<Seq<char>>)
    ensures
        trimmed_patterns(a + b) == trimmed_patterns(a) + trimmed_patterns(b),
    decreases b.len(),
{
    if b.len() == 0 {
        assert(a + b =~= a);
        assert(trimmed_patterns(a) + trimmed_patterns(b) =~= trimmed_patterns(a));
    } else {
        lemma_trimmed_concat(a, b.drop_last());
        assert((a + b).drop_last() =~= a + b.drop_last());
        assert((a + b).last() == b.last());
    }
}

/// Merge ignore pattern lists, trimming each and dropping blank ones.
pub fn resolve_ignore_patterns(base: Option<&[String]>, extra: Option<&[String]>) -> (r: Vec<String>)
    ensures
        strings_view(r@) == trimmed_patterns(opt_list(base) + opt_list(extra)),
{
    let mut merged: Vec<String> = Vec::new();
    proof {
        assert(strings_view(merged@) =~= Seq::<Seq<char>>::empty());
    }
    match base {
        Some(b) => append_trimmed(&mut merged, b),
        None => {},
    }
    proof {
        assert(strings_view(merged@) =~= trimmed_patterns(opt_list(base)));
    }
    match extra {
        Some(e) => append_trimmed(&mut merged, e),
        None => {},
    }
    proof {
        lemma_trimmed_concat(opt_list(base), opt_list(extra));
        assert(strings_view(merged@) =~= trimmed_patterns(opt_list(base)) + trimmed_patterns(opt_list(extra)));
    }
    merged
}

} // verus!
