//! File-system paths as component lists: lexical normalization, the
//! containment check that keeps token files inside their directory, and
//! where the token cache lives.

use vstd::prelude::*;
use crate::text::opt_view;

verus! {

/// A path component, as `std::path::Component` splits a path.
pub enum PathPart {
    Prefix(String),
    Root,
    Cur,
    Parent,
    Normal(String),
}

/// A path component as a plain value.
pub enum Part {
    Prefix(Seq<char>),
    Root,
    Cur,
    Parent,
    Normal(Seq<char>),
}

pub open spec fn part_view(p: PathPart) -> Part {
    match p {
        PathPart::Prefix(s) => Part::Prefix(s@),
        PathPart::Root => Part::Root,
        PathPart::Cur => Part::Cur,
        PathPart::Parent => Part::Parent,
        PathPart::Normal(s) => Part::Normal(s@),
    }
}

pub open spec fn parts_view(ps: Seq<PathPart>) -> Seq<Part> {
    ps.map_values(|p: PathPart| part_view(p))
}

/// The components of a path text, as `Path::components` yields them.
/// The path rules are those of the platform the program is built for
/// (separators differ between Windows and Unix); within one build they are
/// fixed, so the result is a function of the text.
pub uninterp spec fn path_components(p: Seq<char>) -> Seq<Part>;

/// Trusted: `std::path::Path::new(p).components()`, each component turned
/// into a `PathPart` (a normal component by its text). The list depends on
/// the text alone and is named `path_components`; the splitting rules
/// (separators, `.` in the middle of a path) are not restated.
#[verifier::external_body]
fn components_of(p: &str) -> (r: Vec<PathPart>)
    ensures
        parts_view(r@) == path_components(p@),
{
    std::path::Path::new(p).components().map(|c| match c {
        std::path::Component::Prefix(x) => PathPart::Prefix(x.as_os_str().to_string_lossy().into_owned()),
        std::path::Component::RootDir => PathPart::Root,
        std::path::Component::CurDir => PathPart::Cur,
        std::path::Component::ParentDir => PathPart::Parent,
        std::path::Component::Normal(s) => PathPart::Normal(s.to_string_lossy().into_owned()),
    }).collect()
}

/// The text of `base.join(rel)`.
/// The path rules are those of the platform the program is built for
/// (separators differ between Windows and Unix); within one build they are
/// fixed, so the result is a function of the text.
pub uninterp spec fn path_join(base: Seq<char>, rel: Seq<char>) -> Seq<char>;

/// Trusted: `std::path::Path::new(base).join(rel)`, as text. It depends on
/// the two texts alone and is named `path_join`; the separator rules are
/// not restated.
#[verifier::external_body]
pub(crate) fn join_path(base: &str, rel: &str) -> (r: String)
    ensures
        r@ == path_join(base@, rel@),
{
    std::path::Path::new(base).join(rel).to_string_lossy().into_owned()
}

/// The text of a path's parent, when it has one.
/// The path rules are those of the platform the program is built for
/// (separators differ between Windows and Unix); within one build they are
/// fixed, so the result is a function of the text.
pub uninterp spec fn path_parent(p: Seq<char>) -> Option<Seq<char>>;

/// Trusted: `std::path::Path::new(p).parent()`, as text. It depends on the
/// text alone and is named `path_parent`.
#[verifier::external_body]
pub(crate) fn parent_path(p: &str) -> (r: Option<String>)
    ensures
        opt_view(r) == path_parent(p@),
{
    std::path::Path::new(p).parent().map(|x| x.to_string_lossy().into_owned())
}

/// Whether a path is absolute.
/// The path rules are those of the platform the program is built for
/// (separators differ between Windows and Unix); within one build they are
/// fixed, so the result is a function of the text.
pub uninterp spec fn path_is_absolute(p: Seq<char>) -> bool;

/// Trusted: `std::path::Path::new(p).is_absolute()`. It depends on the text
/// alone and is named `path_is_absolute`.
#[verifier::external_body]
pub(crate) fn is_absolute_path(p: &str) -> (r: bool)
    ensures
        r == path_is_absolute(p@),
{
    std::path::Path::new(p).is_absolute()
}

/// A path being built: its head (root or prefix text, if any) and its
/// normal components.
pub struct Built {
    pub head: Option<Seq<char>>,
    pub segs: Seq<Seq<char>>,
}

/// One step of lexical normalization: a root or prefix starts over; `.` is
/// dropped; `..` removes the last component when there is one; a normal
/// component is added.
pub open spec fn norm_step(b: Built, p: Part) -> Built {
    match p {
        Part::Prefix(x) => Built { head: Some(x), segs: Seq::empty() },
        Part::Root => Built { head: Some("/"@), segs: Seq::empty() },
        Part::Cur => b,
        Part::Parent => if b.segs.len() > 0 {
            Built { head: b.head, segs: b.segs.drop_last() }
        } else {
            b
        },
        Part::Normal(s) => Built { head: b.head, segs: b.segs.push(s) },
    }
}

/// Lexical normalization of a component list.
pub open spec fn norm(parts: Seq<Part>) -> Built
    decreases parts.len(),
{
    if parts.len() == 0 {
        Built { head: None, segs: Seq::empty() }
    } else {
        norm_step(norm(parts.drop_last()), parts.last())
    }
}

/// Components joined by `/`.
pub open spec fn join_slash(segs: Seq<Seq<char>>) -> Seq<char>
    decreases segs.len(),
{
    if segs.len() == 0 {
        Seq::empty()
    } else if segs.len() == 1 {
        segs[0]
    } else {
        join_slash(segs.drop_last()) + "/"@ + segs.last()
    }
}

/// The text of a built path.
pub open spec fn render(b: Built) -> Seq<char> {
    match b.head {
        Some(h) => h + join_slash(b.segs),
        None => join_slash(b.segs),
    }
}

/// A path normalized without touching the file system: `.` dropped, each
/// `..` taking away the component before it (never the root).
pub open spec fn normalized(p: Seq<char>) -> Seq<char> {
    render(norm(path_components(p)))
}

/// Normalize a path lexically.
pub fn normalize_path(path: &str) -> (r: String)
    ensures
        r@ == normalized(path@),
{
    let parts = components_of(path);
    let ghost pv = parts_view(parts@);
    let mut head: Option<String> = None;
    let mut segs: Vec<String> = Vec::new();
    let mut i: usize = 0;
    assert(crate::text::strings_view(segs@) =~= Seq::<Seq<char>>::empty());
    assert(pv.subrange(0, 0) =~= Seq::<Part>::empty());
    while i < parts.len()
        invariant
            i <= parts@.len(),
            pv == parts_view(parts@),
            pv == path_components(path@),
            norm(pv.subrange(0, i as int)) == (Built { head: opt_view(head), segs: crate::text::strings_view(segs@) }),
        decreases parts@.len() - i,
    {
        assert(pv.subrange(0, i + 1).drop_last() =~= pv.subrange(0, i as int));
        assert(pv.subrange(0, i + 1).last() == part_view(parts@[i as int]));
        match &parts[i] {
            PathPart::Prefix(x) => {
                head = Some(x.clone());
                segs = Vec::new();
                assert(crate::text::strings_view(segs@) =~= Seq::<Seq<char>>::empty());
            },
            PathPart::Root => {
                head = Some(String::from_str("/"));
                segs = Vec::new();
                assert(crate::text::strings_view(segs@) =~= Seq::<Seq<char>>::empty());
            },
            PathPart::Cur => {},
            PathPart::Parent => {
                if segs.len() > 0 {
                    let ghost before = segs@;
                    segs.pop();
                    assert(crate::text::strings_view(segs@) =~= crate::text::strings_view(before).drop_last());
                }
            },
            PathPart::Normal(s) => {
                let ghost before = segs@;
                segs.push(s.clone());
                assert(crate::text::strings_view(segs@) =~= crate::text::strings_view(before).push(s@));
            },
        }
        i = i + 1;
    }
    assert(pv.subrange(0, i as int) =~= pv);
    let mut out = match head {
        Some(h) => h,
        None => String::new(),
    };
    let mut j: usize = 0;
    let ghost sv = crate::text::strings_view(segs@);
    let ghost h = out@;
    while j < segs.len()
        invariant
            j <= segs@.len(),
            sv == crate::text::strings_view(segs@),
            out@ == h + join_slash(sv.subrange(0, j as int)),
        decreases segs@.len() - j,
    {
        assert(sv.subrange(0, j + 1).drop_last() =~= sv.subrange(0, j as int));
        if j > 0 {
            out.append("/");
        }
        out.append(segs[j].as_str());
        proof {
            reveal_strlit("/");
            if j == 0 {
                assert(sv.subrange(0, 1) =~= seq![sv[0]]);
                assert(out@ =~= h + join_slash(sv.subrange(0, j + 1)));
            } else {
                assert(out@ =~= h + join_slash(sv.subrange(0, j + 1)));
            }
        }
        j = j + 1;
    }
    assert(sv.subrange(0, j as int) =~= sv);
    proof {
        match opt_view(head) {
            Some(x) => {},
            None => {
                assert(h =~= Seq::<char>::empty());
            },
        }
    }
    out
}


/// `target` lies within `base`: the components of `base` begin the
/// components of `target`, as `Path::starts_with` compares them (equal
/// paths included).
pub open spec fn path_within(base: Seq<char>, target: Seq<char>) -> bool {
    let b = path_components(base);
    let t = path_components(target);
    b.len() <= t.len() && t.subrange(0, b.len() as int) == b
}

/// Whether `target` lies within `base`.
pub fn is_path_within(base_dir: &str, target_path: &str) -> (r: bool)
    ensures
        r == path_within(base_dir@, target_path@),
{
    let b = components_of(base_dir);
    let t = components_of(target_path);
    let ghost bv = parts_view(b@);
    let ghost tv = parts_view(t@);
    if b.len() > t.len() {
        return false;
    }
    let mut i: usize = 0;
    while i < b.len()
        invariant
            i <= b@.len(),
            b@.len() <= t@.len(),
            bv == parts_view(b@),
            tv == parts_view(t@),
            bv == path_components(base_dir@),
            tv == path_components(target_path@),
            forall|k: int| 0 <= k < i ==> #[trigger] tv[k] == bv[k],
        decreases b@.len() - i,
    {
        let same = match (&b[i], &t[i]) {
            (PathPart::Prefix(x), PathPart::Prefix(y)) => crate::text::str_eq(x.as_str(), y.as_str()),
            (PathPart::Root, PathPart::Root) => true,
            (PathPart::Cur, PathPart::Cur) => true,
            (PathPart::Parent, PathPart::Parent) => true,
            (PathPart::Normal(x), PathPart::Normal(y)) => crate::text::str_eq(x.as_str(), y.as_str()),
            _ => false,
        };
        assert(bv[i as int] == part_view(b@[i as int]));
        assert(tv[i as int] == part_view(t@[i as int]));
        assert(same == (bv[i as int] == tv[i as int]));
        if !same {
            assert(tv.subrange(0, bv.len() as int)[i as int] != bv[i as int]);
            return false;
        }
        i = i + 1;
    }
    assert(tv.subrange(0, bv.len() as int) =~= bv);
    true
}

/// Every path lies within itself.
pub proof fn lemma_within_self(p: Seq<char>)
    ensures
        path_within(p, p),
{
    assert(path_components(p).subrange(0, path_components(p).len() as int) =~= path_components(p));
}

/// Containment is transitive: within a directory that lies within `base`
/// is within `base`.
pub proof fn lemma_within_trans(a: Seq<char>, b: Seq<char>, c: Seq<char>)
    requires
        path_within(a, b),
        path_within(b, c),
    ensures
        path_within(a, c),
{
    let pa = path_components(a);
    let pb = path_components(b);
    let pc = path_components(c);
    assert(pc.subrange(0, pa.len() as int) =~= pc.subrange(0, pb.len() as int).subrange(0, pa.len() as int));
}

/// The failure for a token file outside its directory.
pub open spec fn outside_message(base: Seq<char>) -> Seq<char> {
    "Token path is outside the allowed directory: "@ + base
        + ". Set MCP_PROBE_TOKEN_DIR to allow other locations."@
}

/// The path a token file is looked for at: an absolute path as given, a
/// relative one under the token directory.
pub open spec fn token_target(base_resolved: Seq<char>, token_path: Seq<char>) -> Seq<char> {
    if path_is_absolute(token_path) {
        token_path
    } else {
        path_join(base_resolved, token_path)
    }
}

/// The path a token file is looked for at.
pub fn token_path_target(base_resolved: &str, token_path: &str) -> (r: String)
    ensures
        r@ == token_target(base_resolved@, token_path@),
{
    if is_absolute_path(token_path) {
        String::from_str(token_path)
    } else {
        join_path(base_resolved, token_path)
    }
}

/// Accept a token file's resolved path only within the resolved token
/// directory.
pub fn check_token_path(base_resolved: &str, resolved: &str) -> (r: Result<String, String>)
    ensures
        path_within(base_resolved@, resolved@) ==> (r matches Ok(p) && p@ == resolved@),
        !path_within(base_resolved@, resolved@) ==> (r matches Err(m) && m@ == outside_message(base_resolved@)),
{
    if is_path_within(base_resolved, resolved) {
        Ok(String::from_str(resolved))
    } else {
        let mut m = String::from_str("Token path is outside the allowed directory: ");
        m.append(base_resolved);
        m.append(". Set MCP_PROBE_TOKEN_DIR to allow other locations.");
        Err(m)
    }
}

/// Where the token cache lives, relative to the home directory.
pub const DEFAULT_CACHE_RELATIVE: &'static str = ".codex/mcp-probe/tokens.json";

/// Where the token cache lives when there is no home directory.
pub const FALLBACK_CACHE_PATH: &'static str = "/tmp/mcp-probe-tokens.json";

/// The token cache path: the override when set, else under the home
/// directory, else a fixed path.
pub open spec fn cache_path(override_path: Option<Seq<char>>, home: Option<Seq<char>>) -> Seq<char> {
    match override_path {
        Some(p) => p,
        None => match home {
            Some(h) => path_join(h, DEFAULT_CACHE_RELATIVE@),
            None => FALLBACK_CACHE_PATH@,
        },
    }
}

/// The token cache path, from `MCP_PROBE_TOKEN_CACHE` and `HOME` as read.
pub fn token_cache_path(override_path: Option<&str>, home: Option<&str>) -> (r: String)
    ensures
        r@ == cache_path(
            match override_path {
                Some(p) => Some(p@),
                None => None,
            },
            match home {
                Some(h) => Some(h@),
                None => None,
            },
        ),
{
    match override_path {
        Some(p) => String::from_str(p),
        None => match home {
            Some(h) => join_path(h, DEFAULT_CACHE_RELATIVE),
            None => String::from_str(FALLBACK_CACHE_PATH),
        },
    }
}

/// The directory token files must live in: the override when set, else
/// the cache's directory, else the working directory.
pub open spec fn token_dir_of(override_dir: Option<Seq<char>>, cache: Seq<char>) -> Seq<char> {
    match override_dir {
        Some(d) => d,
        None => match path_parent(cache) {
            Some(p) => p,
            None => "."@,
        },
    }
}

/// The token directory, from `MCP_PROBE_TOKEN_DIR` as read and the cache
/// path.
pub fn token_dir(override_dir: Option<&str>, cache: &str) -> (r: String)
    ensures
        r@ == token_dir_of(
            match override_dir {
                Some(d) => Some(d@),
                None => None,
            },
            cache@,
        ),
{
    match override_dir {
        Some(d) => String::from_str(d),
        None => match parent_path(cache) {
            Some(p) => p,
            None => String::from_str("."),
        },
    }
}

} // verus!
