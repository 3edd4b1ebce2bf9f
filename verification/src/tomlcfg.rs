//! Line-oriented handling of the root section of the configuration file:
//! comment stripping, string unescaping, key lookup, and key upsert.

use vstd::prelude::*;
use crate::chars::{
    chars_of, replace_chars, replace_spec, starts_with_chars, starts_with_spec, string_of,
    sub_chars, trim_chars, trim_spec, trim_start_chars, trim_start_spec,
};

verus! {

/// One step of scanning a line for the `#` that starts a comment, tracking
/// quoting state; yields the index the line is cut at.
pub open spec fn comment_cut(s: Seq<char>, i: int, in_d: bool, in_s: bool, esc: bool) -> int
    decreases s.len() - i,
    when 0 <= i <= s.len()
{
    if i >= s.len() {
        i
    } else {
        let c = s[i];
        if esc {
            comment_cut(s, i + 1, in_d, in_s, false)
        } else if in_d && c == '\\' {
            comment_cut(s, i + 1, in_d, in_s, true)
        } else if !in_s && c == '"' {
            comment_cut(s, i + 1, !in_d, in_s, false)
        } else if !in_d && c == '\'' {
            comment_cut(s, i + 1, in_d, !in_s, false)
        } else if !in_d && !in_s && c == '#' {
            i
        } else {
            comment_cut(s, i + 1, in_d, in_s, false)
        }
    }
}

proof fn lemma_comment_cut_range(s: Seq<char>, i: int, in_d: bool, in_s: bool, esc: bool)
    requires
        0 <= i <= s.len(),
    ensures
        i <= comment_cut(s, i, in_d, in_s, esc) <= s.len(),
    decreases s.len() - i,
{
    if i < s.len() {
        lemma_comment_cut_range(s, i + 1, in_d, in_s, false);
        lemma_comment_cut_range(s, i + 1, in_d, in_s, true);
        lemma_comment_cut_range(s, i + 1, !in_d, in_s, false);
        lemma_comment_cut_range(s, i + 1, in_d, !in_s, false);
    }
}

/// A line up to its first comment `#` that stands outside of quotes.
pub open spec fn strip_comment_spec(s: Seq<char>) -> Seq<char> {
    s.subrange(0, comment_cut(s, 0, false, false, false))
}

/// Cuts a line at the first unquoted `#`.
pub fn strip_toml_comment(line: &str) -> (r: String)
    ensures
        r@ == strip_comment_spec(line@),
{
    let v = chars_of(line);
    let n = v.len();
    let mut i: usize = 0;
    let mut in_d = false;
    let mut in_s = false;
    let mut esc = false;
    proof {
        lemma_comment_cut_range(v@, 0, false, false, false);
    }
    while i < n
        invariant
            v@ == line@,
            n == v@.len(),
            0 <= i <= n,
            comment_cut(v@, 0, false, false, false) == comment_cut(v@, i as int, in_d, in_s, esc),
        decreases n - i,
    {
        let c = v[i];
        if esc {
            esc = false;
        } else if in_d && c == '\\' {
            esc = true;
        } else if !in_s && c == '"' {
            in_d = !in_d;
        } else if !in_d && c == '\'' {
            in_s = !in_s;
        } else if !in_d && !in_s && c == '#' {
            let cut = sub_chars(&v, 0, i);
            return string_of(&cut);
        }
        i = i + 1;
    }
    let cut = sub_chars(&v, 0, n);
    assert(v@.subrange(0, n as int) =~= v@);
    string_of(&cut)
}

/// The basic-string unescaping applied to a quoted value, one escape
/// sequence at a time, in a fixed substitution order.
pub open spec fn unescape_basic_spec(s: Seq<char>) -> Seq<char> {
    replace_spec(
        replace_spec(
            replace_spec(
                replace_spec(replace_spec(s, seq!['\\', 'n'], seq!['\n']), seq!['\\', 'r'], seq!['\r']),
                seq!['\\', 't'],
                seq!['\t'],
            ),
            seq!['\\', '"'],
            seq!['"'],
        ),
        seq!['\\', '\\'],
        seq!['\\'],
    )
}

/// What a raw TOML value parses to: a double-quoted value is unescaped, a
/// single-quoted value is taken literally, anything else is the trimmed text.
pub open spec fn parse_toml_string_spec(raw: Seq<char>) -> Seq<char> {
    let t = trim_spec(raw);
    if t.len() >= 2 && t[0] == '"' && t.last() == '"' {
        unescape_basic_spec(t.subrange(1, t.len() - 1))
    } else if t.len() >= 2 && t[0] == '\'' && t.last() == '\'' {
        t.subrange(1, t.len() - 1)
    } else {
        t
    }
}

fn two_chars(a: char, b: char) -> (r: Vec<char>)
    ensures
        r@ == seq![a, b],
{
    let mut r: Vec<char> = Vec::new();
    r.push(a);
    r.push(b);
    assert(r@ =~= seq![a, b]);
    r
}

fn one_char(a: char) -> (r: Vec<char>)
    ensures
        r@ == seq![a],
{
    let mut r: Vec<char> = Vec::new();
    r.push(a);
    assert(r@ =~= seq![a]);
    r
}

/// Parses a raw TOML value into the string it denotes.
pub fn parse_toml_string(raw: &str) -> (r: String)
    ensures
        r@ == parse_toml_string_spec(raw@),
{
    let v = trim_chars(&chars_of(raw));
    let n = v.len();
    if n >= 2 && v[0] == '"' && v[n - 1] == '"' {
        let inner = sub_chars(&v, 1, n - 1);
        let s1 = replace_chars(&inner, &two_chars('\\', 'n'), &one_char('\n'));
        let s2 = replace_chars(&s1, &two_chars('\\', 'r'), &one_char('\r'));
        let s3 = replace_chars(&s2, &two_chars('\\', 't'), &one_char('\t'));
        let s4 = replace_chars(&s3, &two_chars('\\', '"'), &one_char('"'));
        let s5 = replace_chars(&s4, &two_chars('\\', '\\'), &one_char('\\'));
        return string_of(&s5);
    }
    if n >= 2 && v[0] == '\'' && v[n - 1] == '\'' {
        let inner = sub_chars(&v, 1, n - 1);
        return string_of(&inner);
    }
    string_of(&v)
}

/// The escaping applied when a value is written back as a basic string.
pub open spec fn escape_basic_spec(s: Seq<char>) -> Seq<char> {
    replace_spec(replace_spec(s, seq!['\\'], seq!['\\', '\\']), seq!['"'], seq!['\\', '"'])
}

/// Escapes a value for embedding in a double-quoted TOML string.
pub fn escape_toml_basic_string(text: &str) -> (r: String)
    ensures
        r@ == escape_basic_spec(text@),
{
    let v = chars_of(text);
    let s1 = replace_chars(&v, &one_char('\\'), &two_chars('\\', '\\'));
    let s2 = replace_chars(&s1, &one_char('"'), &two_chars('\\', '"'));
    string_of(&s2)
}

/// What parsing a root-section line for `key` yields: the line must not be a
/// section header, a comment or blank, must start with the key followed by
/// `=`, and its value (comment stripped, trimmed) must be nonempty.
pub open spec fn try_parse_root_key_spec(line: Seq<char>, key: Seq<char>) -> Option<Seq<char>> {
    let t = trim_start_spec(line);
    if t.len() == 0 || t[0] == '[' || t[0] == '#' {
        None
    } else if !starts_with_spec(t, key) {
        None
    } else {
        let after = trim_start_spec(t.subrange(key.len() as int, t.len() as int));
        if !(after.len() > 0 && after[0] == '=') {
            None
        } else {
            let raw = strip_comment_spec(after.subrange(1, after.len() as int));
            let norm = trim_spec(raw);
            if norm.len() == 0 {
                None
            } else {
                Some(parse_toml_string_spec(norm))
            }
        }
    }
}

/// Reads the value assigned to `key` on this root-section line, if any.
pub fn try_parse_root_toml_key(line: &str, key: &str) -> (r: Option<String>)
    ensures
        ({
            let s = try_parse_root_key_spec(line@, key@);
            match r {
                Some(val) => s == Some(val@),
                None => s is None,
            }
        }),
{
    let t = trim_start_chars(&chars_of(line));
    let n = t.len();
    if n == 0 || t[0] == '[' || t[0] == '#' {
        return None;
    }
    let k = chars_of(key);
    if !starts_with_chars(&t, &k) {
        return None;
    }
    let rest = sub_chars(&t, k.len(), n);
    let after = trim_start_chars(&rest);
    if !(after.len() > 0 && after[0] == '=') {
        return None;
    }
    let tail = sub_chars(&after, 1, after.len());
    let raw = strip_toml_comment(string_of(&tail).as_str());
    let norm = trim_chars(&chars_of(raw.as_str()));
    if norm.len() == 0 {
        return None;
    }
    Some(parse_toml_string(string_of(&norm).as_str()))
}

/// Whether a line opens a `[section]`, ending the root section.
pub open spec fn is_section_start(line: Seq<char>) -> bool {
    let t = trim_start_spec(line);
    t.len() > 0 && t[0] == '['
}

fn line_is_section_start(line: &String) -> (r: bool)
    ensures
        r == is_section_start(line@),
{
    let t = trim_start_chars(&chars_of(line.as_str()));
    t.len() > 0 && t[0] == '['
}

/// Where a new root-section key is inserted: right before the first section
/// header, or at the end when no section follows.
pub open spec fn insert_index_spec(lines: Seq<Seq<char>>) -> int
    decreases lines.len(),
{
    if lines.len() == 0 {
        0
    } else if is_section_start(lines[0]) {
        0
    } else {
        1 + insert_index_spec(lines.drop_first())
    }
}

proof fn lemma_insert_index(lines: Seq<Seq<char>>, i: int)
    requires
        0 <= i <= lines.len(),
        forall|j: int| 0 <= j < i ==> !is_section_start(lines[j]),
        i < lines.len() ==> is_section_start(lines[i]),
    ensures
        i < lines.len() ==> insert_index_spec(lines) == i,
        i == lines.len() ==> insert_index_spec(lines) == lines.len(),
    decreases i + 1,
{
    if lines.len() > 0 {
        if i > 0 {
            lemma_insert_index(lines.drop_first(), i - 1);
        }
    }
}

/// Finds the index a root-section key would be inserted at.
pub fn find_root_insert_index(lines: &Vec<String>) -> (r: usize)
    ensures
        r == insert_index_spec(lines.deep_view()),
        r <= lines@.len(),
{
    let n = lines.len();
    for i in 0..n
        invariant
            n == lines@.len(),
            forall|j: int| 0 <= j < i ==> !is_section_start(lines.deep_view()[j]),
    {
        if line_is_section_start(&lines[i]) {
            proof {
                lemma_insert_index(lines.deep_view(), i as int);
            }
            return i;
        }
    }
    proof {
        lemma_insert_index(lines.deep_view(), n as int);
    }
    n
}

/// Whether this root-section line assigns to `key`.
pub open spec fn root_key_match(line: Seq<char>, key: Seq<char>) -> bool {
    let t = trim_start_spec(line);
    t.len() > 0 && t[0] != '#' && t[0] != '[' && starts_with_spec(t, key) && {
        let rest = trim_start_spec(t.subrange(key.len() as int, t.len() as int));
        rest.len() > 0 && rest[0] == '='
    }
}

fn line_root_key_match(line: &String, key: &Vec<char>) -> (r: bool)
    ensures
        r == root_key_match(line@, key@),
{
    let t = trim_start_chars(&chars_of(line.as_str()));
    let n = t.len();
    if n == 0 || t[0] == '#' || t[0] == '[' {
        return false;
    }
    if !starts_with_chars(&t, key) {
        return false;
    }
    let rest = trim_start_chars(&sub_chars(&t, key.len(), n));
    rest.len() > 0 && rest[0] == '='
}

/// The index of the line assigning to `key` within the root section, if any;
/// the scan stops at the first section header.
pub open spec fn key_line_index_spec(lines: Seq<Seq<char>>, key: Seq<char>) -> Option<int>
    decreases lines.len(),
{
    if lines.len() == 0 {
        None
    } else if is_section_start(lines[0]) {
        None
    } else if root_key_match(lines[0], key) {
        Some(0)
    } else {
        match key_line_index_spec(lines.drop_first(), key) {
            Some(i) => Some(i + 1),
            None => None,
        }
    }
}

proof fn lemma_key_line_index(lines: Seq<Seq<char>>, key: Seq<char>, i: int)
    requires
        0 <= i <= lines.len(),
        forall|j: int|
            0 <= j < i ==> !is_section_start(lines[j]) && !root_key_match(lines[j], key),
    ensures
        i == lines.len() ==> key_line_index_spec(lines, key) is None,
        i < lines.len() && is_section_start(lines[i]) ==> key_line_index_spec(lines, key) is None,
        i < lines.len() && !is_section_start(lines[i]) && root_key_match(lines[i], key)
            ==> key_line_index_spec(lines, key) == Some(i),
    decreases i + 1,
{
    if lines.len() > 0 && i > 0 {
        lemma_key_line_index(lines.drop_first(), key, i - 1);
    }
}

/// Finds the root-section line that assigns to `key`, if one exists before
/// the first section header.
pub fn find_root_key_line_index(lines: &Vec<String>, key: &str) -> (r: Option<usize>)
    ensures
        ({
            let s = key_line_index_spec(lines.deep_view(), key@);
            match r {
                Some(i) => s == Some(i as int) && i < lines@.len(),
                None => s is None,
            }
        }),
{
    let k = chars_of(key);
    let n = lines.len();
    for i in 0..n
        invariant
            k@ == key@,
            n == lines@.len(),
            forall|j: int|
                0 <= j < i ==> !is_section_start(lines.deep_view()[j]) && !root_key_match(
                    lines.deep_view()[j],
                    key@,
                ),
    {
        if line_is_section_start(&lines[i]) {
            proof {
                lemma_key_line_index(lines.deep_view(), key@, i as int);
            }
            return None;
        }
        if line_root_key_match(&lines[i], &k) {
            proof {
                lemma_key_line_index(lines.deep_view(), key@, i as int);
            }
            return Some(i);
        }
    }
    proof {
        lemma_key_line_index(lines.deep_view(), key@, n as int);
    }
    None
}

/// The line written back for a key and value.
pub open spec fn next_line_spec(key: Seq<char>, text: Seq<char>) -> Seq<char> {
    key + " = \""@ + escape_basic_spec(text) + "\""@
}

/// How upserting a key transforms the root section: the new lines and
/// whether anything changed.
pub open spec fn upsert_lines_spec(
    lines: Seq<Seq<char>>,
    key: Seq<char>,
    value: Option<Seq<char>>,
) -> (Seq<Seq<char>>, bool) {
    let existing = key_line_index_spec(lines, key);
    match value {
        Some(text) => {
            let next = next_line_spec(key, text);
            match existing {
                Some(i) => if lines[i] == next {
                    (lines, false)
                } else {
                    (lines.update(i, next), true)
                },
                None => (lines.insert(insert_index_spec(lines), next), true),
            }
        },
        None => match existing {
            Some(i) => (lines.remove(i), true),
            None => (lines, false),
        },
    }
}

/// Writes, rewrites or removes the root-section line for `key`, setting
/// `changed` when the lines were modified.
pub fn upsert_root_toml_key(
    lines: &mut Vec<String>,
    key: &str,
    value: Option<&String>,
    changed: &mut bool,
)
    ensures
        ({
            let s = upsert_lines_spec(
                old(lines).deep_view(),
                key@,
                match value {
                    Some(t) => Some(t@),
                    None => None,
                },
            );
            final(lines).deep_view() == s.0 && *final(changed) == (*old(changed) || s.1)
        }),
{
    let existing = find_root_key_line_index(lines, key);
    match value {
        Some(text) => {
            let mut next = String::new();
            next.append(key);
            next.append(" = \"");
            let esc = escape_toml_basic_string(text.as_str());
            next.append(esc.as_str());
            next.append("\"");
            assert(next@ =~= next_line_spec(key@, text@));
            match existing {
                Some(idx) => {
                    if lines[idx] != next {
                        lines.set(idx, next);
                        *changed = true;
                        assert(lines.deep_view() =~~= old(lines).deep_view().update(
                            idx as int,
                            next_line_spec(key@, text@),
                        ));
                    } else {
                        assert(lines.deep_view() =~~= old(lines).deep_view());
                    }
                },
                None => {
                    let at = find_root_insert_index(lines);
                    lines.insert(at, next);
                    *changed = true;
                    assert(lines.deep_view() =~~= old(lines).deep_view().insert(
                        at as int,
                        next_line_spec(key@, text@),
                    ));
                },
            }
        },
        None => {
            match existing {
                Some(idx) => {
                    lines.remove(idx);
                    *changed = true;
                    assert(lines.deep_view() =~~= old(lines).deep_view().remove(idx as int));
                },
                None => {},
            }
        },
    }
}

/// The segment of `s` behind the last occurrence of `c` (all of `s` when `c`
/// does not occur).
pub open spec fn suffix_after_last(s: Seq<char>, c: char) -> Seq<char>
    decreases s.len(),
{
    if s.len() == 0 {
        s
    } else if s.last() == c {
        Seq::empty()
    } else {
        suffix_after_last(s.drop_last(), c).push(s.last())
    }
}

pub proof fn lemma_suffix_after_last(s: Seq<char>, c: char, k: int)
    requires
        0 <= k <= s.len(),
        k > 0 ==> s[k - 1] == c,
        forall|j: int| k <= j < s.len() ==> s[j] != c,
    ensures
        suffix_after_last(s, c) == s.subrange(k, s.len() as int),
    decreases s.len(),
{
    if s.len() == 0 {
        assert(s.subrange(0, 0) =~= s);
    } else if s.last() == c {
        assert(k == s.len());
        assert(s.subrange(k, s.len() as int) =~= Seq::<char>::empty());
    } else {
        assert(k < s.len());
        let t = s.drop_last();
        lemma_suffix_after_last(t, c, k);
        assert(t.subrange(k, t.len() as int).push(s.last()) =~= s.subrange(k, s.len() as int));
    }
}

pub open spec fn canonical_key_spec(key: Seq<char>) -> Option<Seq<char>> {
    let t = trim_spec(key);
    if t.len() == 0 {
        None
    } else {
        let sfx = suffix_after_last(t, '.');
        if sfx == "model"@ {
            Some("model"@)
        } else if sfx == "model_reasoning_effort"@ || sfx == "modelReasoningEffort"@ || sfx
            == "reasoningEffort"@ || sfx == "effort"@ {
            Some("model_reasoning_effort"@)
        } else if sfx == "approval_policy"@ || sfx == "approvalPolicy"@ {
            Some("approval_policy"@)
        } else if sfx == "sandbox_mode"@ || sfx == "sandboxMode"@ || sfx == "sandbox"@ {
            Some("sandbox_mode"@)
        } else {
            None
        }
    }
}

/// Maps a UI-supplied configuration key name to its canonical file key.
pub fn canonical_config_key(key: &str) -> (r: Option<String>)
    ensures
        ({
            let s = canonical_key_spec(key@);
            match r {
                Some(c) => s == Some(c@),
                None => s is None,
            }
        }),
{
    let t = trim_chars(&chars_of(key));
    let n = t.len();
    if n == 0 {
        return None;
    }
    let mut k: usize = n;
    while k > 0 && t[k - 1] != '.'
        invariant
            n == t@.len(),
            k <= n,
            forall|j: int| k <= j < n ==> t@[j] != '.',
        decreases k,
    {
        k = k - 1;
    }
    proof {
        lemma_suffix_after_last(t@, '.', k as int);
    }
    let sfx = string_of(&sub_chars(&t, k, n));
    if sfx == String::from_str("model") {
        Some(String::from_str("model"))
    } else if sfx == String::from_str("model_reasoning_effort") || sfx == String::from_str(
        "modelReasoningEffort",
    ) || sfx == String::from_str("reasoningEffort") || sfx == String::from_str("effort") {
        Some(String::from_str("model_reasoning_effort"))
    } else if sfx == String::from_str("approval_policy") || sfx == String::from_str(
        "approvalPolicy",
    ) {
        Some(String::from_str("approval_policy"))
    } else if sfx == String::from_str("sandbox_mode") || sfx == String::from_str("sandboxMode")
        || sfx == String::from_str("sandbox") {
        Some(String::from_str("sandbox_mode"))
    } else {
        None
    }
}

/// The default model/approval/sandbox settings read from the root section of
/// the configuration file.
pub struct ConfigSnapshot {
    pub model: Option<String>,
    pub model_reasoning_effort: Option<String>,
    pub approval_policy: Option<String>,
    pub sandbox_mode: Option<String>,
}

/// The value of the first root-section line assigning to `key`, before any
/// section header.
pub open spec fn first_root_value_spec(lines: Seq<Seq<char>>, key: Seq<char>) -> Option<Seq<char>>
    decreases lines.len(),
{
    if lines.len() == 0 {
        None
    } else if is_section_start(lines[0]) {
        None
    } else {
        match try_parse_root_key_spec(lines[0], key) {
            Some(v) => Some(v),
            None => first_root_value_spec(lines.drop_first(), key),
        }
    }
}

proof fn lemma_first_root_value(lines: Seq<Seq<char>>, key: Seq<char>, i: int)
    requires
        0 <= i <= lines.len(),
        forall|j: int|
            0 <= j < i ==> !is_section_start(lines[j]) && try_parse_root_key_spec(lines[j], key)
                is None,
    ensures
        i == lines.len() ==> first_root_value_spec(lines, key) is None,
        i < lines.len() && is_section_start(lines[i]) ==> first_root_value_spec(lines, key)
            is None,
        i < lines.len() && !is_section_start(lines[i]) ==> first_root_value_spec(lines, key)
            == (match try_parse_root_key_spec(lines[i], key) {
            Some(v) => Some(v),
            None => first_root_value_spec(lines.subrange(i + 1, lines.len() as int), key),
        }),
    decreases i + 1,
{
    if lines.len() > 0 {
        if i > 0 {
            lemma_first_root_value(lines.drop_first(), key, i - 1);
            if i < lines.len() {
                assert(lines.drop_first().subrange(i, lines.len() - 1) =~= lines.subrange(
                    i + 1,
                    lines.len() as int,
                ));
            }
        } else if i < lines.len() && !is_section_start(lines[0]) {
            assert(lines.drop_first() =~= lines.subrange(1, lines.len() as int));
        }
    }
}

/// Scans the root section for the first value assigned to `key`.
pub fn first_root_value(lines: &Vec<String>, key: &str) -> (r: Option<String>)
    ensures
        ({
            let s = first_root_value_spec(lines.deep_view(), key@);
            match r {
                Some(v) => s == Some(v@),
                None => s is None,
            }
        }),
{
    let n = lines.len();
    for i in 0..n
        invariant
            n == lines@.len(),
            forall|j: int|
                0 <= j < i ==> !is_section_start(lines.deep_view()[j]) && try_parse_root_key_spec(
                    lines.deep_view()[j],
                    key@,
                ) is None,
    {
        if line_is_section_start(&lines[i]) {
            proof {
                lemma_first_root_value(lines.deep_view(), key@, i as int);
            }
            return None;
        }
        let parsed = try_parse_root_toml_key(lines[i].as_str(), key);
        match parsed {
            Some(v) => {
                proof {
                    lemma_first_root_value(lines.deep_view(), key@, i as int);
                }
                return Some(v);
            },
            None => {},
        }
    }
    proof {
        lemma_first_root_value(lines.deep_view(), key@, n as int);
    }
    None
}

/// Reads the four recognized settings from the root section of the
/// configuration file's lines.
pub fn config_snapshot_from_lines(lines: &Vec<String>) -> (r: ConfigSnapshot)
    ensures
        ({
            let lv = lines.deep_view();
            &&& (match r.model {
                Some(v) => first_root_value_spec(lv, "model"@) == Some(v@),
                None => first_root_value_spec(lv, "model"@) is None,
            })
            &&& (match r.model_reasoning_effort {
                Some(v) => first_root_value_spec(lv, "model_reasoning_effort"@) == Some(v@),
                None => first_root_value_spec(lv, "model_reasoning_effort"@) is None,
            })
            &&& (match r.approval_policy {
                Some(v) => first_root_value_spec(lv, "approval_policy"@) == Some(v@),
                None => first_root_value_spec(lv, "approval_policy"@) is None,
            })
            &&& (match r.sandbox_mode {
                Some(v) => first_root_value_spec(lv, "sandbox_mode"@) == Some(v@),
                None => first_root_value_spec(lv, "sandbox_mode"@) is None,
            })
        }),
{
    ConfigSnapshot {
        model: first_root_value(lines, "model"),
        model_reasoning_effort: first_root_value(lines, "model_reasoning_effort"),
        approval_policy: first_root_value(lines, "approval_policy"),
        sandbox_mode: first_root_value(lines, "sandbox_mode"),
    }
}

/// The settings a turn is started with after all fallbacks apply.
pub struct TurnSettings {
    pub model: String,
    pub effort: String,
    pub approval_policy: String,
    pub sandbox_mode: String,
}

/// The first present value among up to three sources, then the default.
pub open spec fn pick_spec(
    a: Option<Seq<char>>,
    b: Option<Seq<char>>,
    c: Option<Seq<char>>,
    dflt: Seq<char>,
) -> Seq<char> {
    match a {
        Some(x) => x,
        None => match b {
            Some(y) => y,
            None => match c {
                Some(z) => z,
                None => dflt,
            },
        },
    }
}

pub open spec fn view_opt(o: Option<String>) -> Option<Seq<char>> {
    match o {
        Some(s) => Some(s@),
        None => None,
    }
}

fn pick(a: &Option<String>, b: &Option<String>, c: &Option<String>, dflt: &str) -> (r: String)
    ensures
        r@ == pick_spec(view_opt(*a), view_opt(*b), view_opt(*c), dflt@),
{
    match a {
        Some(x) => x.clone(),
        None => match b {
            Some(y) => y.clone(),
            None => match c {
                Some(z) => z.clone(),
                None => String::from_str(dflt),
            },
        },
    }
}

/// Resolves the settings for a new turn: an explicit request parameter wins,
/// then the per-session setting, then the configuration file, then the
/// built-in default.
pub fn resolve_turn_settings(
    param_model: &Option<String>,
    param_effort: &Option<String>,
    param_approval: &Option<String>,
    param_sandbox: &Option<String>,
    session_approval: &Option<String>,
    session_sandbox: &Option<String>,
    config: &ConfigSnapshot,
) -> (r: TurnSettings)
    ensures
        r.model@ == pick_spec(view_opt(*param_model), view_opt(config.model), None, "gpt-5.2-codex"@),
        r.effort@ == pick_spec(
            view_opt(*param_effort),
            view_opt(config.model_reasoning_effort),
            None,
            "medium"@,
        ),
        r.approval_policy@ == pick_spec(
            view_opt(*param_approval),
            view_opt(*session_approval),
            view_opt(config.approval_policy),
            "on-request"@,
        ),
        r.sandbox_mode@ == pick_spec(
            view_opt(*param_sandbox),
            view_opt(*session_sandbox),
            view_opt(config.sandbox_mode),
            "workspace-write"@,
        ),
{
    let none: Option<String> = None;
    TurnSettings {
        model: pick(param_model, &config.model, &none, "gpt-5.2-codex"),
        effort: pick(param_effort, &config.model_reasoning_effort, &none, "medium"),
        approval_policy: pick(
            param_approval,
            session_approval,
            &config.approval_policy,
            "on-request",
        ),
        sandbox_mode: pick(
            param_sandbox,
            session_sandbox,
            &config.sandbox_mode,
            "workspace-write",
        ),
    }
}

} // verus!
