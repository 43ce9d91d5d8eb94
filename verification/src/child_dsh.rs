//! The decisions around a DSH child process: npm registries, the npm
//! install arguments, and the URL that a started DSH prints.

use vstd::prelude::*;

use crate::strings::{is_whitespace, is_ws, owned, push_str, string_from_range, string_views, to_chars};

verus! {

/// An npm registry to install DSH from.
#[derive(Debug, Clone, Copy, PartialEq, Eq, Structural)]
pub enum Registry {
    /// The official registry.
    Official,
    /// npmmirror.
    Npmmirror,
    /// Tencent Cloud's mirror.
    Tencent,
}

pub open spec fn registry_label(r: Registry) -> Seq<char> {
    match r {
        Registry::Official => "官方源"@,
        Registry::Npmmirror => "npmmirror"@,
        Registry::Tencent => "腾讯源"@,
    }
}

pub open spec fn registry_url(r: Registry) -> Seq<char> {
    match r {
        Registry::Official => "https://registry.npmjs.org/"@,
        Registry::Npmmirror => "https://registry.npmmirror.com"@,
        Registry::Tencent => "https://mirrors.cloud.tencent.com/npm/"@,
    }
}

impl Registry {
    /// The name shown for the registry.
    pub fn label(self) -> (r: &'static str)
        ensures
            r@ == registry_label(self),
    {
        match self {
            Registry::Official => "官方源",
            Registry::Npmmirror => "npmmirror",
            Registry::Tencent => "腾讯源",
        }
    }

    /// The registry's URL, as npm's `--registry` takes it.
    pub fn url(self) -> (r: &'static str)
        ensures
            r@ == registry_url(self),
    {
        match self {
            Registry::Official => "https://registry.npmjs.org/",
            Registry::Npmmirror => "https://registry.npmmirror.com",
            Registry::Tencent => "https://mirrors.cloud.tencent.com/npm/",
        }
    }
}

/// Why DSH could not be started.
#[derive(Debug)]
pub enum StartError {
    /// No `dsh` was found; the user is asked whether to install it. The
    /// errors of the attempts are kept.
    NotInstalled { errors: Vec<String> },
}

/// The npm arguments that install DSH globally from `registry`, into
/// `install_dir` when one is given.
pub open spec fn install_args_spec(registry: Registry, install_dir: Option<Seq<char>>) -> Seq<
    Seq<char>,
> {
    let base = seq![
        "install"@,
        "-g"@,
        "@deepseek-ai/dsh"@,
        "--verbose"@,
        "--registry"@,
        registry_url(registry),
    ];
    match install_dir {
        Some(d) => base + seq!["--prefix"@, d],
        None => base,
    }
}

/// The arguments of `npm install -g @deepseek-ai/dsh --verbose --registry <url>`,
/// followed by `--prefix <dir>` when an install directory is given.
pub fn install_args(registry: Registry, install_dir: Option<&str>) -> (r: Vec<String>)
    ensures
        string_views(r@) == install_args_spec(
            registry,
            match install_dir {
                Some(d) => Some(d@),
                None => None,
            },
        ),
{
    let mut args: Vec<String> = Vec::new();
    args.push(owned("install"));
    args.push(owned("-g"));
    args.push(owned("@deepseek-ai/dsh"));
    args.push(owned("--verbose"));
    args.push(owned("--registry"));
    args.push(owned(registry.url()));
    match install_dir {
        Some(dir) => {
            args.push(owned("--prefix"));
            args.push(owned(dir));
        },
        None => {},
    }
    let ghost spec = install_args_spec(
        registry,
        match install_dir {
            Some(d) => Some(d@),
            None => None,
        },
    );
    assert(string_views(args@) =~= spec);
    args
}

/// `--prefix` is among the install arguments exactly when an install
/// directory is given, and it is then followed by that directory.
pub proof fn law_prefix_iff_install_dir(registry: Registry, install_dir: Option<Seq<char>>)
    ensures
        (exists|i: int|
            0 <= i < install_args_spec(registry, install_dir).len() && #[trigger] install_args_spec(
                registry,
                install_dir,
            )[i] == "--prefix"@) <==> install_dir is Some,
        match install_dir {
            Some(d) => install_args_spec(registry, install_dir)[6] == "--prefix"@
                && install_args_spec(registry, install_dir)[7] == d,
            None => true,
        },
{
    reveal_strlit("install");
    reveal_strlit("-g");
    reveal_strlit("@deepseek-ai/dsh");
    reveal_strlit("--verbose");
    reveal_strlit("--registry");
    reveal_strlit("--prefix");
    reveal_strlit("https://registry.npmjs.org/");
    reveal_strlit("https://registry.npmmirror.com");
    reveal_strlit("https://mirrors.cloud.tencent.com/npm/");
    let a = install_args_spec(registry, install_dir);
    assert("--prefix"@.len() == 8);
    assert("--prefix"@[2] == 'p');
    assert("--verbose"@[2] == 'v');
    assert("--registry"@[2] == 'r');
    assert(registry_url(registry)[0] == 'h');
    assert(forall|i: int| 0 <= i < 6 ==> #[trigger] a[i] != "--prefix"@);
    if install_dir is Some {
        assert(a[6] == "--prefix"@);
    }
}

// ---- URL extraction -------------------------------------------------------------------------

/// `p` occurs in `s` at index `i`.
pub open spec fn occurs_at(s: Seq<char>, p: Seq<char>, i: int) -> bool {
    0 <= i && i + p.len() <= s.len() && s.subrange(i, i + p.len()) == p
}

/// Index of the first occurrence of `p` in `s`, or -1 (`str::find`).
pub open spec fn find_seq(s: Seq<char>, p: Seq<char>) -> int
    decreases s.len(),
{
    if s.len() < p.len() {
        -1
    } else if s.take(p.len() as int) == p {
        0
    } else if s.len() == 0 {
        -1
    } else {
        let r = find_seq(s.drop_first(), p);
        if r < 0 {
            -1
        } else {
            r + 1
        }
    }
}

/// Characterises `find_seq` as the first index where `p` occurs.
pub proof fn lemma_find_seq(s: Seq<char>, p: Seq<char>)
    ensures
        -1 <= find_seq(s, p),
        find_seq(s, p) >= 0 ==> occurs_at(s, p, find_seq(s, p)),
        forall|j: int| 0 <= j && (find_seq(s, p) < 0 || j < find_seq(s, p)) ==> !occurs_at(s, p, j),
    decreases s.len(),
{
    if s.len() < p.len() {
        assert forall|j: int| 0 <= j implies !occurs_at(s, p, j) by {}
    } else if s.take(p.len() as int) == p {
        assert(s.subrange(0, p.len() as int) =~= s.take(p.len() as int));
    } else if s.len() == 0 {
        assert(s.take(p.len() as int) =~= p);
    } else {
        let t = s.drop_first();
        lemma_find_seq(t, p);
        let r = find_seq(t, p);
        assert forall|j: int| 0 <= j && (find_seq(s, p) < 0 || j < find_seq(s, p)) implies !occurs_at(
            s,
            p,
            j,
        ) by {
            if j == 0 {
                assert(s.subrange(0, p.len() as int) =~= s.take(p.len() as int));
            } else if occurs_at(s, p, j) {
                assert(t.subrange(j - 1, j - 1 + p.len()) =~= s.subrange(j, j + p.len()));
                assert(occurs_at(t, p, j - 1));
            }
        }
        if r >= 0 {
            assert(occurs_at(t, p, r));
            assert(t.subrange(r, r + p.len()) =~= s.subrange(r + 1, r + 1 + p.len()));
        }
    }
}

/// Number of leading characters of `t` before the first whitespace (all of
/// `t` when there is none).
pub open spec fn until_ws(t: Seq<char>) -> nat
    decreases t.len(),
{
    if t.len() == 0 || is_ws(t[0]) {
        0
    } else {
        1 + until_ws(t.drop_first())
    }
}

/// `scheme` followed by what comes after its first occurrence in `s`, up to
/// the next whitespace.
pub open spec fn url_after(s: Seq<char>, scheme: Seq<char>) -> Seq<char> {
    let rest = s.skip(find_seq(s, scheme) + scheme.len());
    scheme + rest.take(until_ws(rest) as int)
}

/// The URL a DSH banner line holds: from the first `http://` (or, when there
/// is none, the first `https://`) up to the next whitespace.
pub open spec fn extract_url_spec(line: Seq<char>) -> Option<Seq<char>> {
    if find_seq(line, "http://"@) >= 0 {
        Some(url_after(line, "http://"@))
    } else if find_seq(line, "https://"@) >= 0 {
        Some(url_after(line, "https://"@))
    } else {
        None
    }
}

/// Whether `p` occurs in `cs` at index `i`.
pub(crate) fn matches_at(cs: &Vec<char>, p: &Vec<char>, i: usize) -> (r: bool)
    ensures
        r == occurs_at(cs@, p@, i as int),
{
    if i > cs.len() || p.len() > cs.len() - i {
        return false;
    }
    let mut k: usize = 0;
    while k < p.len()
        invariant
            k <= p.len(),
            i + p.len() <= cs.len(),
            forall|m: int| 0 <= m < k ==> cs@[i + m] == p@[m],
        decreases p.len() - k,
    {
        if cs[i + k] != p[k] {
            assert(cs@.subrange(i as int, i + p.len())[k as int] == cs@[i + k]);
            return false;
        }
        k = k + 1;
    }
    assert(cs@.subrange(i as int, i + p.len()) =~= p@);
    true
}

/// Index of the first occurrence of `p` in `cs`.
fn find_chars(cs: &Vec<char>, p: &Vec<char>) -> (r: Option<usize>)
    ensures
        match r {
            Some(i) => find_seq(cs@, p@) == i,
            None => find_seq(cs@, p@) < 0,
        },
{
    proof {
        lemma_find_seq(cs@, p@);
    }
    let mut i: usize = 0;
    while i < cs.len()
        invariant
            i <= cs.len(),
            forall|j: int| 0 <= j < i ==> !occurs_at(cs@, p@, j),
            -1 <= find_seq(cs@, p@),
            find_seq(cs@, p@) >= 0 ==> occurs_at(cs@, p@, find_seq(cs@, p@)),
            forall|j: int|
                0 <= j && (find_seq(cs@, p@) < 0 || j < find_seq(cs@, p@)) ==> !occurs_at(
                    cs@,
                    p@,
                    j,
                ),
        decreases cs.len() - i,
    {
        if matches_at(cs, p, i) {
            return Some(i);
        }
        i = i + 1;
    }
    if matches_at(cs, p, i) {
        return Some(i);
    }
    assert(forall|j: int| j > cs.len() ==> !occurs_at(cs@, p@, j));
    None
}

/// `scheme` followed by the characters of `cs` from `start` up to the next whitespace.
fn url_from(cs: &Vec<char>, start: usize, scheme: &str) -> (r: String)
    requires
        start <= cs.len(),
    ensures
        r@ == scheme@ + cs@.skip(start as int).take(until_ws(cs@.skip(start as int)) as int),
{
    let mut end = start;
    while end < cs.len() && !is_whitespace(cs[end])
        invariant
            start <= end <= cs.len(),
            until_ws(cs@.skip(start as int)) == (end - start) + until_ws(cs@.skip(end as int)),
        decreases cs.len() - end,
    {
        assert(cs@.skip(end as int)[0] == cs@[end as int]);
        assert(cs@.skip(end as int).drop_first() =~= cs@.skip(end + 1));
        end = end + 1;
    }
    if end < cs.len() {
        assert(cs@.skip(end as int)[0] == cs@[end as int]);
    }
    let mut r = owned(scheme);
    let tail = string_from_range(cs, start, end);
    push_str(&mut r, tail.as_str());
    assert(cs@.skip(start as int).take(until_ws(cs@.skip(start as int)) as int) =~= cs@.subrange(
        start as int,
        end as int,
    ));
    r
}

/// Extracts the URL from a line such as `dsh web: http://127.0.0.1:12345`,
/// stopping at the first whitespace so that a trailing note such as
/// `(LAN: http://...)` is left out.
pub fn extract_url(line: &str) -> (r: Option<String>)
    ensures
        match r {
            Some(u) => extract_url_spec(line@) == Some(u@),
            None => extract_url_spec(line@) is None,
        },
{
    let cs = to_chars(line);
    let http = to_chars("http://");
    match find_chars(&cs, &http) {
        Some(i) => {
            proof {
                lemma_find_seq(cs@, http@);
                assert(occurs_at(cs@, http@, i as int));
                assert(i + http@.len() <= cs@.len());
            }
            let n = http.len();
            assert(i + n <= cs.len());
            return Some(url_from(&cs, i + n, "http://"));
        },
        None => {},
    }
    let https = to_chars("https://");
    match find_chars(&cs, &https) {
        Some(i) => {
            proof {
                lemma_find_seq(cs@, https@);
                assert(occurs_at(cs@, https@, i as int));
                assert(i + https@.len() <= cs@.len());
            }
            let n = https.len();
            assert(i + n <= cs.len());
            Some(url_from(&cs, i + n, "https://"))
        },
        None => None,
    }
}

proof fn lemma_until_ws(t: Seq<char>)
    ensures
        until_ws(t) <= t.len(),
        forall|i: int| 0 <= i < until_ws(t) ==> !is_ws(#[trigger] t[i]),
    decreases t.len(),
{
    if t.len() > 0 && !is_ws(t[0]) {
        lemma_until_ws(t.drop_first());
        assert forall|i: int| 0 <= i < until_ws(t) implies !is_ws(#[trigger] t[i]) by {
            if i > 0 {
                assert(t[i] == t.drop_first()[i - 1]);
            }
        }
    }
}

/// An extracted URL starts with `http://` or `https://` and holds no
/// whitespace.
pub proof fn law_extracted_url_shape(line: Seq<char>)
    ensures
        match extract_url_spec(line) {
            Some(u) => {
                &&& (u.take(7) == "http://"@ || u.take(8) == "https://"@)
                &&& forall|i: int| 0 <= i < u.len() ==> !is_ws(#[trigger] u[i])
            },
            None => true,
        },
{
    reveal_strlit("http://");
    reveal_strlit("https://");
    lemma_find_seq(line, "http://"@);
    lemma_find_seq(line, "https://"@);
    match extract_url_spec(line) {
        Some(u) => {
            let scheme = if find_seq(line, "http://"@) >= 0 {
                "http://"@
            } else {
                "https://"@
            };
            let rest = line.skip(find_seq(line, scheme) + scheme.len());
            lemma_until_ws(rest);
            let tail = rest.take(until_ws(rest) as int);
            assert(u == scheme + tail);
            assert(u.take(scheme.len() as int) =~= scheme);
            assert forall|i: int| 0 <= i < u.len() implies !is_ws(#[trigger] u[i]) by {
                if i < scheme.len() {
                    assert(u[i] == scheme[i]);
                } else {
                    assert(u[i] == tail[i - scheme.len()]);
                    assert(tail[i - scheme.len()] == rest[i - scheme.len()]);
                }
            }
        },
        None => {},
    }
}

} // verus!
