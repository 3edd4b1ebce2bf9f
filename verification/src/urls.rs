//! Endpoint handling: normalizing base URLs, deriving the websocket URL,
//! joining endpoint paths, and the ordered search for the backend executable.

use vstd::prelude::*;
use crate::chars::{
    chars_of, concat_chars, starts_with_chars, starts_with_spec, strip_leading_chars,
    strip_leading_spec, strip_trailing_chars, strip_trailing_spec, string_of, trim_chars,
    trim_spec,
};

verus! {

/// What normalizing a base URL yields: trim whitespace and trailing slashes;
/// empty input is rejected; `ws`/`wss` schemes turn into `http`/`https`; a
/// missing scheme defaults to `http`.
pub open spec fn normalize_base_url_spec(raw: Seq<char>) -> Option<Seq<char>> {
    let t = strip_trailing_spec(trim_spec(raw), '/');
    if t.len() == 0 {
        None
    } else if starts_with_spec(t, "ws://"@) {
        Some("http://"@ + t.subrange("ws://"@.len() as int, t.len() as int))
    } else if starts_with_spec(t, "wss://"@) {
        Some("https://"@ + t.subrange("wss://"@.len() as int, t.len() as int))
    } else if starts_with_spec(t, "http://"@) || starts_with_spec(t, "https://"@) {
        Some(t)
    } else {
        Some("http://"@ + t)
    }
}

/// Normalizes a user- or environment-supplied base URL.
pub fn normalize_bridge_base_url(raw: &str) -> (r: Option<String>)
    ensures
        ({
            let s = normalize_base_url_spec(raw@);
            match r {
                Some(u) => s == Some(u@),
                None => s is None,
            }
        }),
{
    let v = chars_of(raw);
    let trimmed = trim_chars(&v);
    let t = strip_trailing_chars(&trimmed, '/');
    if t.len() == 0 {
        return None;
    }
    let ws = chars_of("ws://");
    let wss = chars_of("wss://");
    let http = chars_of("http://");
    let https = chars_of("https://");
    if starts_with_chars(&t, &ws) {
        let rest = crate::chars::suffix_chars(&t, ws.len());
        let out = concat_chars(&http, &rest);
        return Some(string_of(&out));
    }
    if starts_with_chars(&t, &wss) {
        let rest = crate::chars::suffix_chars(&t, wss.len());
        let out = concat_chars(&https, &rest);
        return Some(string_of(&out));
    }
    if starts_with_chars(&t, &http) || starts_with_chars(&t, &https) {
        return Some(string_of(&t));
    }
    let out = concat_chars(&http, &t);
    Some(string_of(&out))
}

/// The websocket URL derived from a base URL: scheme switched to `ws`/`wss`
/// and the fixed `ws` path appended.
pub open spec fn ws_url_spec(base: Seq<char>) -> Seq<char> {
    if starts_with_spec(base, "https://"@) {
        "wss://"@ + base.subrange("https://"@.len() as int, base.len() as int) + "/ws"@
    } else if starts_with_spec(base, "http://"@) {
        "ws://"@ + base.subrange("http://"@.len() as int, base.len() as int) + "/ws"@
    } else {
        strip_trailing_spec(base, '/') + "/ws"@
    }
}

/// Derives the websocket URL from a base URL.
pub fn bridge_ws_url_from_base(base_url: &str) -> (r: String)
    ensures
        r@ == ws_url_spec(base_url@),
{
    let v = chars_of(base_url);
    let http = chars_of("http://");
    let https = chars_of("https://");
    let path = chars_of("/ws");
    if starts_with_chars(&v, &https) {
        let rest = crate::chars::suffix_chars(&v, https.len());
        let out = concat_chars(&concat_chars(&chars_of("wss://"), &rest), &path);
        return string_of(&out);
    }
    if starts_with_chars(&v, &http) {
        let rest = crate::chars::suffix_chars(&v, http.len());
        let out = concat_chars(&concat_chars(&chars_of("ws://"), &rest), &path);
        return string_of(&out);
    }
    let out = concat_chars(&strip_trailing_chars(&v, '/'), &path);
    string_of(&out)
}

/// Joins a base URL and a path with exactly one slash between them.
pub fn bridge_endpoint(base_url: &str, path: &str) -> (r: String)
    ensures
        r@ == strip_trailing_spec(base_url@, '/') + "/"@ + strip_leading_spec(path@, '/'),
{
    let b = strip_trailing_chars(&chars_of(base_url), '/');
    let p = strip_leading_chars(&chars_of(path), '/');
    let out = concat_chars(&concat_chars(&b, &chars_of("/")), &p);
    string_of(&out)
}

/// The configuration file path under the given home directory.
pub fn codex_config_path(home_dir: &str) -> (r: String)
    ensures
        r@ == home_dir@ + "/.codex/config.toml"@,
{
    let mut r = String::new();
    r.append(home_dir);
    r.append("/.codex/config.toml");
    assert(r@ =~= home_dir@ + "/.codex/config.toml"@);
    r
}

/// The three candidate paths rooted at one ancestor directory.
pub open spec fn root_candidates_spec(root: Seq<char>) -> Seq<Seq<char>> {
    seq![
        root + "/bridge-server/codex-relayouter-server.exe"@,
        root + "/codex-relayouter-server/bin/Debug/net8.0/codex-relayouter-server.exe"@,
        root + "/codex-relayouter-server/bin/Release/net8.0/codex-relayouter-server.exe"@,
    ]
}

/// The full ordered candidate list: the explicit override first, then paths
/// beside the running executable, then paths under the working directory at
/// increasing ancestor depth.
pub open spec fn candidate_paths_spec(
    override_exe: Option<Seq<char>>,
    exe_dir: Option<Seq<char>>,
    exe_parent_dir: Option<Seq<char>>,
    cwd: Option<Seq<char>>,
) -> Seq<Seq<char>> {
    (match override_exe {
        Some(o) => if trim_spec(o).len() > 0 {
            seq![trim_spec(o)]
        } else {
            Seq::empty()
        },
        None => Seq::empty(),
    }) + (match exe_dir {
        Some(d) => seq![d + "/bridge-server/codex-relayouter-server.exe"@],
        None => Seq::empty(),
    }) + (match exe_parent_dir {
        Some(d) => seq![d + "/bridge-server/codex-relayouter-server.exe"@],
        None => Seq::empty(),
    }) + (match cwd {
        Some(c) => root_candidates_spec(c) + root_candidates_spec(c + "/.."@)
            + root_candidates_spec(c + "/../.."@) + root_candidates_spec(c + "/../../.."@),
        None => Seq::empty(),
    })
}

fn push_root_candidates(out: &mut Vec<String>, root: &Vec<char>)
    ensures
        final(out).deep_view() == old(out).deep_view() + root_candidates_spec(root@),
{
    let a = concat_chars(root, &chars_of("/bridge-server/codex-relayouter-server.exe"));
    out.push(string_of(&a));
    let b = concat_chars(
        root,
        &chars_of("/codex-relayouter-server/bin/Debug/net8.0/codex-relayouter-server.exe"),
    );
    out.push(string_of(&b));
    let c = concat_chars(
        root,
        &chars_of("/codex-relayouter-server/bin/Release/net8.0/codex-relayouter-server.exe"),
    );
    out.push(string_of(&c));
    assert(final(out).deep_view() =~~= old(out).deep_view() + root_candidates_spec(root@));
}

/// Builds the ordered list of filesystem locations where the backend
/// executable may live. The directories themselves are supplied by the
/// caller; this function fixes the search order.
pub fn candidate_bridge_server_paths(
    override_exe: &Option<String>,
    exe_dir: &Option<String>,
    exe_parent_dir: &Option<String>,
    cwd: &Option<String>,
) -> (r: Vec<String>)
    ensures
        r.deep_view() == candidate_paths_spec(
            match override_exe {
                Some(o) => Some(o@),
                None => None,
            },
            match exe_dir {
                Some(d) => Some(d@),
                None => None,
            },
            match exe_parent_dir {
                Some(d) => Some(d@),
                None => None,
            },
            match cwd {
                Some(c) => Some(c@),
                None => None,
            },
        ),
{
    let mut out: Vec<String> = Vec::new();
    match override_exe {
        Some(o) => {
            let t = trim_chars(&chars_of(o.as_str()));
            if t.len() > 0 {
                out.push(string_of(&t));
            }
        },
        None => {},
    }
    match exe_dir {
        Some(d) => {
            let p = concat_chars(
                &chars_of(d.as_str()),
                &chars_of("/bridge-server/codex-relayouter-server.exe"),
            );
            out.push(string_of(&p));
        },
        None => {},
    }
    match exe_parent_dir {
        Some(d) => {
            let p = concat_chars(
                &chars_of(d.as_str()),
                &chars_of("/bridge-server/codex-relayouter-server.exe"),
            );
            out.push(string_of(&p));
        },
        None => {},
    }
    match cwd {
        Some(c) => {
            let base = chars_of(c.as_str());
            push_root_candidates(&mut out, &base);
            let up1 = concat_chars(&base, &chars_of("/.."));
            push_root_candidates(&mut out, &up1);
            let up2 = concat_chars(&base, &chars_of("/../.."));
            push_root_candidates(&mut out, &up2);
            let up3 = concat_chars(&base, &chars_of("/../../.."));
            push_root_candidates(&mut out, &up3);
        },
        None => {},
    }
    proof {
        assert(out.deep_view() =~~= candidate_paths_spec(
            match override_exe {
                Some(o) => Some(o@),
                None => None,
            },
            match exe_dir {
                Some(d) => Some(d@),
                None => None,
            },
            match exe_parent_dir {
                Some(d) => Some(d@),
                None => None,
            },
            match cwd {
                Some(c) => Some(c@),
                None => None,
            },
        ));
    }
    out
}

/// The position of the first `true` in `flags`, or `flags.len()` if none.
pub open spec fn first_true_index(flags: Seq<bool>) -> int
    decreases flags.len(),
{
    if flags.len() == 0 {
        0
    } else if flags[0] {
        0
    } else {
        1 + first_true_index(flags.drop_first())
    }
}

proof fn lemma_first_true_index(flags: Seq<bool>, i: int)
    requires
        0 <= i <= flags.len(),
        forall|j: int| 0 <= j < i ==> !flags[j],
        i < flags.len() ==> flags[i],
    ensures
        i < flags.len() ==> first_true_index(flags) == i,
        i == flags.len() ==> first_true_index(flags) >= flags.len(),
    decreases i + 1,
{
    if flags.len() > 0 {
        if i > 0 {
            assert(!flags[0]);
            lemma_first_true_index(flags.drop_first(), i - 1);
        }
    }
}

/// Picks the first candidate whose existence flag is set: the verified core
/// of locating the backend executable, where `exists[i]` says whether the
/// file at `candidates[i]` is present on disk.
pub fn find_bridge_server_executable(candidates: &Vec<String>, exists: &Vec<bool>) -> (r: Option<
    String,
>)
    requires
        candidates@.len() == exists@.len(),
    ensures
        ({
            let k = first_true_index(exists@);
            match r {
                Some(p) => k < exists@.len() && p@ == candidates@[k]@,
                None => k >= exists@.len(),
            }
        }),
{
    let n = candidates.len();
    for i in 0..n
        invariant
            n == candidates@.len(),
            n == exists@.len(),
            forall|j: int| 0 <= j < i ==> !exists@[j],
    {
        if exists[i] {
            proof {
                lemma_first_true_index(exists@, i as int);
            }
            return Some(candidates[i].clone());
        }
    }
    proof {
        lemma_first_true_index(exists@, n as int);
    }
    None
}

} // verus!
