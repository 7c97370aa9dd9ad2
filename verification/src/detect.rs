//! Env-templated path expansion, dev-tool detection, and the choice of scan
//! roots. What the environment and the disk hold is read outside and handed
//! in; what is decided from it is here.

use vstd::prelude::*;

use crate::scan::dedup;

use crate::text::{chars_of, push_char, string_of};

verus! {

/// The environment variables path specs may reference, each `None` when
/// unset or empty.
#[derive(Debug)]
pub struct EnvPaths {
    pub local_app_data: Option<String>,
    pub app_data: Option<String>,
    pub user_profile: Option<String>,
}

/// The platform's joining of path `base` and a relative component `seg`, as
/// `PathBuf::push` computes it.
pub uninterp spec fn pushed_path(base: Seq<char>, seg: Seq<char>) -> Seq<char>;

/// `base` with the component `seg` pushed onto it.
///
/// Trusted: converts `base` into a `PathBuf`, calls `PathBuf::push(seg)` and
/// converts back; the result is named [`pushed_path`] of the two inputs
/// (a function of them and the platform's separator rules).
#[verifier::external_body]
fn path_push(base: &str, seg: &str) -> (r: String)
    ensures
        r@ == pushed_path(base@, seg@),
{
    let mut p = std::path::PathBuf::from(base);
    p.push(seg);
    p.to_string_lossy().into_owned()
}

/// Is `c` a path separator in a spec (`/` or `\`)?
pub open spec fn is_sep(c: char) -> bool {
    c == '/' || c == '\\'
}

/// `s` without its leading separators.
pub open spec fn trim_leading_seps(s: Seq<char>) -> Seq<char>
    decreases s.len(),
{
    if s.len() > 0 && is_sep(s[0]) {
        trim_leading_seps(s.drop_first())
    } else {
        s
    }
}

/// The non-empty pieces of `s` between separators, in order. `cur` is the
/// piece being read.
pub open spec fn segments_from(s: Seq<char>, cur: Seq<char>) -> Seq<Seq<char>>
    decreases s.len(),
{
    if s.len() == 0 {
        if cur.len() == 0 {
            Seq::empty()
        } else {
            seq![cur]
        }
    } else if is_sep(s[0]) {
        if cur.len() == 0 {
            segments_from(s.drop_first(), Seq::empty())
        } else {
            seq![cur] + segments_from(s.drop_first(), Seq::empty())
        }
    } else {
        segments_from(s.drop_first(), cur.push(s[0]))
    }
}

/// `base` with each segment of `segs` pushed in turn.
pub open spec fn push_all(base: Seq<char>, segs: Seq<Seq<char>>) -> Seq<char>
    decreases segs.len(),
{
    if segs.len() == 0 {
        base
    } else {
        push_all(pushed_path(base, segs[0]), segs.drop_first())
    }
}

/// `base` joined with the remainder of a spec: leading separators dropped,
/// then each non-empty `/`- or `\`-separated segment pushed as a path
/// component; `base` itself when nothing remains.
pub open spec fn joined(base: Seq<char>, rest: Seq<char>) -> Seq<char> {
    let t = trim_leading_seps(rest);
    if t.len() == 0 {
        base
    } else {
        push_all(base, segments_from(t, Seq::empty()))
    }
}

fn segments(s: &Vec<char>, start: usize) -> (r: Vec<Vec<char>>)
    requires
        start <= s@.len(),
    ensures
        r@.map_values(|v: Vec<char>| v@) == segments_from(s@.skip(start as int), Seq::empty()),
{
    let mut out: Vec<Vec<char>> = Vec::new();
    let mut cur: Vec<char> = Vec::new();
    let mut i: usize = start;
    while i < s.len()
        invariant
            start <= i <= s@.len(),
            out@.map_values(|v: Vec<char>| v@) + segments_from(s@.skip(i as int), cur@) == segments_from(
                s@.skip(start as int),
                Seq::empty(),
            ),
        decreases s@.len() - i,
    {
        let c = s[i];
        assert(s@.skip(i as int)[0] == c);
        assert(s@.skip(i as int).drop_first() =~= s@.skip(i as int + 1));
        let ghost cur0 = cur@;
        if c == '/' || c == '\\' {
            assert(segments_from(s@.skip(i as int), cur0) == if cur0.len() == 0 {
                segments_from(s@.skip(i as int + 1), Seq::empty())
            } else {
                seq![cur0] + segments_from(s@.skip(i as int + 1), Seq::empty())
            });
        } else {
            assert(segments_from(s@.skip(i as int), cur0) == segments_from(s@.skip(i as int + 1), cur0.push(c)));
        }
        if c == '/' || c == '\\' {
            if cur.len() > 0 {
                let ghost before = out@.map_values(|v: Vec<char>| v@);
                let ghost curv = cur@;
                out.push(cur);
                assert(out@.map_values(|v: Vec<char>| v@) =~= before.push(curv));
                assert(before.push(curv) + segments_from(s@.skip(i as int + 1), Seq::empty()) =~= before + (
                seq![curv] + segments_from(s@.skip(i as int + 1), Seq::empty())));
                cur = Vec::new();
                assert(out@.map_values(|v: Vec<char>| v@) + segments_from(s@.skip(i as int + 1), cur@) == segments_from(
                s@.skip(start as int), Seq::empty()));
            } else {
                assert(cur@ =~= Seq::<char>::empty());
            }
        } else {
            cur.push(c);
            assert(cur@ == cur0.push(c));
        }
        i = i + 1;
    }
    assert(s@.skip(i as int) =~= Seq::<char>::empty());
    if cur.len() > 0 {
        let ghost before = out@.map_values(|v: Vec<char>| v@);
        let ghost curv = cur@;
        out.push(cur);
        assert(out@.map_values(|v: Vec<char>| v@) =~= before.push(curv));
        assert(before + seq![curv] =~= before.push(curv));
    } else {
        assert(out@.map_values(|v: Vec<char>| v@) + Seq::<Seq<char>>::empty() =~= out@.map_values(
            |v: Vec<char>| v@,
        ));
    }
    out
}

/// Join `base` with the remainder of a spec, tolerating leading `/` or `\`
/// and pushing each segment as a path component.
pub fn join_rest(base: &str, rest: &str) -> (r: String)
    ensures
        r@ == joined(base@, rest@),
{
    let v = chars_of(rest);
    let mut start: usize = 0;
    assert(v@.skip(0) =~= v@);
    while start < v.len() && (v[start] == '/' || v[start] == '\\')
        invariant
            start <= v@.len(),
            v@ == rest@,
            trim_leading_seps(v@.skip(start as int)) == trim_leading_seps(rest@),
        decreases v@.len() - start,
    {
        assert(v@.skip(start as int).drop_first() =~= v@.skip(start as int + 1));
        start = start + 1;
    }
    assert(v@.skip(0) =~= v@);
    let ghost t = v@.skip(start as int);
    assert(trim_leading_seps(t) == t);
    if start == v.len() {
        assert(t.len() == 0);
        return String::from_str(base);
    }
    let segs = segments(&v, start);
    let ghost sv = segs@.map_values(|x: Vec<char>| x@);
    let mut path = String::from_str(base);
    let mut k: usize = 0;
    assert(sv.skip(0) =~= sv);
    while k < segs.len()
        invariant
            sv == segs@.map_values(|x: Vec<char>| x@),
            sv == segments_from(t, Seq::empty()),
            k <= segs@.len(),
            push_all(path@, sv.skip(k as int)) == push_all(base@, sv),
        decreases segs@.len() - k,
    {
        let seg = string_of(&segs[k]);
        assert(sv.skip(k as int)[0] == seg@);
        assert(sv.skip(k as int).drop_first() =~= sv.skip(k as int + 1));
        path = path_push(path.as_str(), seg.as_str());
        k = k + 1;
    }
    assert(sv.skip(k as int) =~= Seq::<Seq<char>>::empty());
    path
}

/// The env value a spec token names, if it is a known, non-empty one.
pub open spec fn env_value(env: Option<Seq<char>>) -> Option<Seq<char>> {
    match env {
        Some(v) => if v.len() > 0 { Some(v) } else { None },
        None => None,
    }
}

pub open spec fn opt_view(o: Option<String>) -> Option<Seq<char>> {
    match o {
        Some(s) => Some(s@),
        None => None,
    }
}

/// Upper-case ASCII letters of `s` (other characters kept).
pub open spec fn ascii_uppercase(s: Seq<char>) -> Seq<char> {
    s.map_values(|c: char| if 'a' <= c && c <= 'z' { ((c as u32) - 32) as char } else { c })
}

/// Index of the first `%` in `s`, if any.
pub open spec fn first_percent(s: Seq<char>) -> Option<int>
    decreases s.len(),
{
    if s.len() == 0 {
        None
    } else if s[0] == '%' {
        Some(0)
    } else {
        match first_percent(s.drop_first()) {
            Some(i) => Some(i + 1),
            None => None,
        }
    }
}

/// The textual expansion of a path spec: a leading `~` is the user profile;
/// `%VAR%rest` with `VAR` one of LOCALAPPDATA, APPDATA, USERPROFILE (any
/// ASCII case) is that variable joined with `rest`; a spec without a token is
/// itself. `None` when the variable is unset or empty, unknown, or the `%` is
/// never closed.
pub open spec fn expanded(spec: Seq<char>, env: EnvPaths) -> Option<Seq<char>> {
    if spec.len() > 0 && spec[0] == '~' {
        match env_value(opt_view(env.user_profile)) {
            Some(home) => Some(joined(home, spec.drop_first())),
            None => None,
        }
    } else if spec.len() > 0 && spec[0] == '%' {
        let after = spec.drop_first();
        match first_percent(after) {
            None => None,
            Some(end) => {
                let var = ascii_uppercase(after.take(end));
                let rest = after.skip(end + 1);
                let base = if var == "LOCALAPPDATA"@ {
                    env_value(opt_view(env.local_app_data))
                } else if var == "APPDATA"@ {
                    env_value(opt_view(env.app_data))
                } else if var == "USERPROFILE"@ {
                    env_value(opt_view(env.user_profile))
                } else {
                    None
                };
                match base {
                    Some(b) => Some(joined(b, rest)),
                    None => None,
                }
            },
        }
    } else {
        Some(spec)
    }
}

proof fn lemma_first_percent_after(w: Seq<char>, rest: Seq<char>)
    requires
        forall|i: int| 0 <= i < w.len() ==> w[i] != '%',
    ensures
        first_percent(w.push('%') + rest) == Some(w.len() as int),
    decreases w.len(),
{
    let s = w.push('%') + rest;
    if w.len() > 0 {
        assert(s[0] == w[0]);
        assert(s.drop_first() =~= w.drop_first().push('%') + rest);
        lemma_first_percent_after(w.drop_first(), rest);
    } else {
        assert(s[0] == '%');
    }
}

proof fn lemma_token_expands(token: Seq<char>, rest: Seq<char>, env: EnvPaths)
    requires
        token.len() > 0,
        forall|i: int| 0 <= i < token.len() ==> 'A' <= #[trigger] token[i] <= 'Z',
    ensures
        ({
            let spec = seq!['%'] + token.push('%') + rest;
            let base = if token == "LOCALAPPDATA"@ {
                env_value(opt_view(env.local_app_data))
            } else if token == "APPDATA"@ {
                env_value(opt_view(env.app_data))
            } else if token == "USERPROFILE"@ {
                env_value(opt_view(env.user_profile))
            } else {
                None
            };
            expanded(spec, env) == match base {
                Some(b) => Some(joined(b, rest)),
                None => None,
            }
        }),
{
    let spec = seq!['%'] + token.push('%') + rest;
    let after = spec.drop_first();
    assert(after =~= token.push('%') + rest);
    lemma_first_percent_after(token, rest);
    assert(after.take(token.len() as int) =~= token);
    assert(after.skip(token.len() as int + 1) =~= rest);
    assert(ascii_uppercase(token) =~= token);
}

/// Each path token resolves from its own variable and no other: when the
/// variable is set to a non-empty value `v`, `%LOCALAPPDATA%rest`,
/// `%APPDATA%rest` and `%USERPROFILE%rest` expand to `v` joined with `rest`
/// (LOCALAPPDATA, APPDATA and USERPROFILE respectively), and `~rest` to the
/// user profile joined with `rest`; when it is unset or empty, the
/// expansion fails.
pub proof fn law_tokens_read_their_own_variable(rest: Seq<char>, env: EnvPaths)
    ensures
        env.local_app_data matches Some(v) && v@.len() > 0 ==> expanded("%LOCALAPPDATA%"@ + rest, env) == Some(
            joined(env.local_app_data.unwrap()@, rest),
        ),
        env.app_data matches Some(v) && v@.len() > 0 ==> expanded("%APPDATA%"@ + rest, env) == Some(
            joined(env.app_data.unwrap()@, rest),
        ),
        env.user_profile matches Some(v) && v@.len() > 0 ==> expanded("%USERPROFILE%"@ + rest, env) == Some(
            joined(env.user_profile.unwrap()@, rest),
        ),
        env.user_profile matches Some(v) && v@.len() > 0 ==> expanded(seq!['~'] + rest, env) == Some(
            joined(env.user_profile.unwrap()@, rest),
        ),
        env.app_data is None ==> expanded("%APPDATA%"@ + rest, env) is None,
        env.local_app_data is None ==> expanded("%LOCALAPPDATA%"@ + rest, env) is None,
        env.user_profile is None ==> expanded("%USERPROFILE%"@ + rest, env) is None,
{
    reveal_strlit("%LOCALAPPDATA%");
    reveal_strlit("%APPDATA%");
    reveal_strlit("%USERPROFILE%");
    reveal_strlit("LOCALAPPDATA");
    reveal_strlit("APPDATA");
    reveal_strlit("USERPROFILE");
    let l = "LOCALAPPDATA"@;
    let a = "APPDATA"@;
    let u = "USERPROFILE"@;
    lemma_token_expands(l, rest, env);
    lemma_token_expands(a, rest, env);
    lemma_token_expands(u, rest, env);
    assert("%LOCALAPPDATA%"@ + rest =~= seq!['%'] + l.push('%') + rest);
    assert("%APPDATA%"@ + rest =~= seq!['%'] + a.push('%') + rest);
    assert("%USERPROFILE%"@ + rest =~= seq!['%'] + u.push('%') + rest);
    assert(l != a && l != u) by {
        assert(l.len() != a.len() && l.len() != u.len());
    }
    assert(a != u) by {
        assert(a.len() != u.len());
    }
    assert((seq!['~'] + rest).drop_first() =~= rest);
}

fn nonempty(o: &Option<String>) -> (r: Option<&String>)
    ensures
        match r {
            Some(s) => env_value(opt_view(*o)) == Some(s@),
            None => env_value(opt_view(*o)) is None,
        },
{
    match o {
        Some(s) => {
            if s.as_str().unicode_len() > 0 {
                Some(s)
            } else {
                None
            }
        },
        None => None,
    }
}

fn upper_char(c: char) -> (r: char)
    ensures
        r == (if 'a' <= c && c <= 'z' { ((c as u32) - 32) as char } else { c }),
{
    if 'a' <= c && c <= 'z' {
        let b: u8 = (c as u8) - 32;
        b as char
    } else {
        c
    }
}

/// Textual expansion of an env-templated path spec, without checking that
/// the result exists.
pub fn expand_str(spec: &str, env: &EnvPaths) -> (r: Option<String>)
    ensures
        match r {
            Some(s) => expanded(spec@, *env) == Some(s@),
            None => expanded(spec@, *env) is None,
        },
{
    let v = chars_of(spec);
    if v.len() > 0 && v[0] == '~' {
        let home = match nonempty(&env.user_profile) {
            Some(h) => h,
            None => return None,
        };
        let mut v = v;
        let tail = v.split_off(1);
        assert(tail@ =~= spec@.drop_first());
        let rest = string_of(&tail);
        return Some(join_rest(home.as_str(), rest.as_str()));
    }
    if v.len() > 0 && v[0] == '%' {
        let ghost after = spec@.drop_first();
        let mut end: usize = 1;
        while end < v.len() && v[end] != '%'
            invariant
                1 <= end <= v@.len(),
                v@ == spec@,
                v@[0] == '%',
                forall|j: int| 1 <= j < end ==> v@[j] != '%',
                first_percent(after) == (match first_percent(v@.skip(end as int)) {
                    Some(i) => Some(i + end - 1),
                    None => None,
                }),
            decreases v@.len() - end,
        {
            assert(v@.skip(end as int).drop_first() =~= v@.skip(end as int + 1));
            end = end + 1;
        }
        if end == v.len() {
            assert(v@.skip(end as int) =~= Seq::<char>::empty());
            return None;
        }
        assert(v@.skip(end as int)[0] == '%');
        let mut var: Vec<char> = Vec::new();
        let mut i: usize = 1;
        while i < end
            invariant
                1 <= i <= end,
                end < v@.len(),
                v@ == spec@,
                after == spec@.drop_first(),
                var@ == ascii_uppercase(after.take(i - 1)),
            decreases end - i,
        {
            var.push(upper_char(v[i]));
            assert(after[i - 1] == v@[i as int]);
            assert(after.take(i as int) =~= after.take(i - 1).push(v@[i as int]));
            assert(ascii_uppercase(after.take(i as int)) =~= ascii_uppercase(after.take(i - 1)).push(
                upper_char_spec(v@[i as int]),
            ));
            i = i + 1;
        }
        let var = string_of(&var);
        let mut rest_chars: Vec<char> = Vec::new();
        let mut j: usize = end + 1;
        while j < v.len()
            invariant
                end + 1 <= j <= v@.len(),
                v@ == spec@,
                after == spec@.drop_first(),
                rest_chars@ == after.skip(end as int).take(j - end - 1),
            decreases v@.len() - j,
        {
            rest_chars.push(v[j]);
            assert(after.skip(end as int)[j - end - 1] == v@[j as int]);
            assert(after.skip(end as int).take(j - end) =~= after.skip(end as int).take(j - end - 1).push(v@[j as int]));
            j = j + 1;
        }
        assert(after.skip(end as int).take(j - end - 1) =~= after.skip(end as int));
        let rest = string_of(&rest_chars);
        let base = if var == String::from_str("LOCALAPPDATA") {
            nonempty(&env.local_app_data)
        } else if var == String::from_str("APPDATA") {
            nonempty(&env.app_data)
        } else if var == String::from_str("USERPROFILE") {
            nonempty(&env.user_profile)
        } else {
            None
        };
        return match base {
            Some(b) => Some(join_rest(b.as_str(), rest.as_str())),
            None => None,
        };
    }
    Some(String::from_str(spec))
}

pub open spec fn upper_char_spec(c: char) -> char {
    if 'a' <= c && c <= 'z' {
        ((c as u32) - 32) as char
    } else {
        c
    }
}

/// Normalize a path for display: forward slashes.
pub open spec fn display_text(path: Seq<char>) -> Seq<char> {
    path.map_values(|c: char| if c == '\\' { '/' } else { c })
}

/// Normalize a path for display: forward slashes.
pub fn display_path(path: &str) -> (r: String)
    ensures
        r@ == display_text(path@),
{
    let v = chars_of(path);
    let mut out: Vec<char> = Vec::new();
    let mut i: usize = 0;
    while i < v.len()
        invariant
            i <= v@.len(),
            out@ == display_text(v@.take(i as int)),
        decreases v@.len() - i,
    {
        let c = v[i];
        out.push(if c == '\\' { '/' } else { c });
        assert(display_text(v@.take(i as int + 1)) =~= display_text(v@.take(i as int)).push(
            if c == '\\' { '/' } else { c },
        ));
        i = i + 1;
    }
    assert(v@.take(i as int) =~= v@);
    string_of(&out)
}

/// A display path holds no backslash, and normalizing it again changes
/// nothing.
pub proof fn law_display_path_is_normal(p: Seq<char>)
    ensures
        !display_text(p).contains('\\'),
        display_text(display_text(p)) == display_text(p),
{
    assert(display_text(display_text(p)) =~= display_text(p));
}

// ---------------------------------------------------------------------------
// Tool detection
// ---------------------------------------------------------------------------

/// A dev tool Safai cares about: its id (as rules name it), its label, and
/// the executables any one of which satisfies it.
#[derive(Debug, Clone, Copy)]
pub struct ToolSpec {
    pub id: &'static str,
    pub label: &'static str,
    pub exes: &'static [&'static str],
}

pub ghost struct ToolFacts {
    pub id: Seq<char>,
    pub label: Seq<char>,
    pub exes: Seq<Seq<char>>,
}

/// The tools Safai detects, in display order, each id once.
pub open spec fn tool_table() -> Seq<ToolFacts> {
    seq![
        ToolFacts { id: "uv"@, label: "uv (Python)"@, exes: seq!["uv"@] },
        ToolFacts { id: "npm"@, label: "npm"@, exes: seq!["npm"@] },
        ToolFacts { id: "pnpm"@, label: "pnpm"@, exes: seq!["pnpm"@] },
        ToolFacts { id: "yarn"@, label: "Yarn"@, exes: seq!["yarn"@] },
        ToolFacts { id: "node"@, label: "Node.js"@, exes: seq!["node"@] },
        ToolFacts { id: "bun"@, label: "Bun"@, exes: seq!["bun"@] },
        ToolFacts { id: "gradle"@, label: "Gradle"@, exes: seq!["gradle"@] },
        ToolFacts { id: "cargo"@, label: "Cargo (Rust)"@, exes: seq!["cargo"@] },
        ToolFacts { id: "go"@, label: "Go"@, exes: seq!["go"@] },
        ToolFacts { id: "python"@, label: "Python"@, exes: seq!["python"@, "python3"@] },
        ToolFacts { id: "pip"@, label: "pip"@, exes: seq!["pip"@, "pip3"@] },
        ToolFacts { id: "dart"@, label: "Dart / Flutter"@, exes: seq!["dart"@, "flutter"@] },
        ToolFacts { id: "git"@, label: "Git"@, exes: seq!["git"@] },
    ]
}

/// Every tool is listed once: no two entries of the tool table share an id.
pub proof fn law_tool_ids_are_distinct()
    ensures
        forall|i: int, j: int| 0 <= i < j < tool_table().len() ==> #[trigger] tool_table()[i].id
            != #[trigger] tool_table()[j].id,
{
    reveal_strlit("uv");
    reveal_strlit("npm");
    reveal_strlit("pnpm");
    reveal_strlit("yarn");
    reveal_strlit("node");
    reveal_strlit("bun");
    reveal_strlit("gradle");
    reveal_strlit("cargo");
    reveal_strlit("go");
    reveal_strlit("python");
    reveal_strlit("pip");
    reveal_strlit("dart");
    reveal_strlit("git");
    let t = tool_table();
    assert forall|i: int, j: int| 0 <= i < j < t.len() implies #[trigger] t[i].id != #[trigger] t[j].id by {
        if t[i].id == t[j].id {
            assert(t[i].id.len() == t[j].id.len());
            assert(t[i].id[0] == t[j].id[0]);
            assert(t[i].id[1] == t[j].id[1]);
        }
    }
}

pub open spec fn tool_facts(t: ToolSpec) -> ToolFacts {
    ToolFacts { id: t.id@, label: t.label@, exes: t.exes@.map_values(|e: &str| e@) }
}

/// The tool table.
pub fn tool_specs() -> (v: Vec<ToolSpec>)
    ensures
        v@.len() == tool_table().len(),
        forall|i: int| 0 <= i < v@.len() ==> #[trigger] tool_facts(v@[i]) == tool_table()[i],
{
    let mut v: Vec<ToolSpec> = Vec::new();
    v.push(ToolSpec { id: "uv", label: "uv (Python)", exes: &["uv"] });
    v.push(ToolSpec { id: "npm", label: "npm", exes: &["npm"] });
    v.push(ToolSpec { id: "pnpm", label: "pnpm", exes: &["pnpm"] });
    v.push(ToolSpec { id: "yarn", label: "Yarn", exes: &["yarn"] });
    v.push(ToolSpec { id: "node", label: "Node.js", exes: &["node"] });
    v.push(ToolSpec { id: "bun", label: "Bun", exes: &["bun"] });
    v.push(ToolSpec { id: "gradle", label: "Gradle", exes: &["gradle"] });
    v.push(ToolSpec { id: "cargo", label: "Cargo (Rust)", exes: &["cargo"] });
    v.push(ToolSpec { id: "go", label: "Go", exes: &["go"] });
    v.push(ToolSpec { id: "python", label: "Python", exes: &["python", "python3"] });
    v.push(ToolSpec { id: "pip", label: "pip", exes: &["pip", "pip3"] });
    v.push(ToolSpec { id: "dart", label: "Dart / Flutter", exes: &["dart", "flutter"] });
    v.push(ToolSpec { id: "git", label: "Git", exes: &["git"] });
    proof {
        assert forall|i: int| 0 <= i < v@.len() implies #[trigger] tool_facts(v@[i]) == tool_table()[i] by {
            assert(tool_facts(v@[i]).exes =~= tool_table()[i].exes);
        }
    }
    v
}

/// Is any executable of `exes` among `present`?
pub open spec fn any_present(exes: Seq<Seq<char>>, present: Seq<Seq<char>>) -> bool {
    exists|k: int| 0 <= k < exes.len() && present.contains(#[trigger] exes[k])
}

/// Detect the dev tools Safai cares about, given the executable names found
/// on PATH (`present`). Returns `(id, label, detected)` triples in table
/// order; a tool is detected when any of its executables is present.
pub fn detect_tools(present: &Vec<String>) -> (r: Vec<(String, String, bool)>)
    ensures
        r@.len() == tool_table().len(),
        forall|i: int| 0 <= i < r@.len() ==> (#[trigger] r@[i]).0@ == tool_table()[i].id && r@[i].1@
            == tool_table()[i].label && r@[i].2 == any_present(tool_table()[i].exes, present.deep_view()),
{
    let specs = tool_specs();
    let mut out: Vec<(String, String, bool)> = Vec::new();
    let mut i: usize = 0;
    while i < specs.len()
        invariant
            specs@.len() == tool_table().len(),
            forall|j: int| 0 <= j < specs@.len() ==> #[trigger] tool_facts(specs@[j]) == tool_table()[j],
            i <= specs@.len(),
            out@.len() == i,
            forall|j: int| 0 <= j < i ==> (#[trigger] out@[j]).0@ == tool_table()[j].id && out@[j].1@
                == tool_table()[j].label && out@[j].2 == any_present(tool_table()[j].exes, present.deep_view()),
        decreases specs@.len() - i,
    {
        let spec = specs[i];
        assert(tool_facts(specs@[i as int]) == tool_table()[i as int]);
        let ghost ex = spec.exes@.map_values(|e: &str| e@);
        let mut detected = false;
        let mut k: usize = 0;
        while k < spec.exes.len()
            invariant
                ex == spec.exes@.map_values(|e: &str| e@),
                k <= spec.exes@.len(),
                detected == exists|m: int| 0 <= m < k && present.deep_view().contains(#[trigger] ex[m]),
            decreases spec.exes@.len() - k,
        {
            let e = String::from_str(spec.exes[k]);
            assert(ex[k as int] == e@);
            if crate::schedule::policy::contains_string(present, &e) {
                detected = true;
            }
            k = k + 1;
        }
        out.push((String::from_str(spec.id), String::from_str(spec.label), detected));
        i = i + 1;
    }
    out
}

/// The executables of `tools`, tool by tool, in order.
pub open spec fn all_exes(tools: Seq<ToolFacts>) -> Seq<Seq<char>>
    decreases tools.len(),
{
    if tools.len() == 0 {
        Seq::empty()
    } else {
        all_exes(tools.drop_last()) + tools.last().exes
    }
}

/// Every executable name the tool table probes for, in table order.
pub fn tool_executables() -> (r: Vec<&'static str>)
    ensures
        r@.map_values(|e: &str| e@) == all_exes(tool_table()),
{
    let specs = tool_specs();
    let mut out: Vec<&'static str> = Vec::new();
    let mut i: usize = 0;
    while i < specs.len()
        invariant
            specs@.len() == tool_table().len(),
            forall|j: int| 0 <= j < specs@.len() ==> #[trigger] tool_facts(specs@[j]) == tool_table()[j],
            i <= specs@.len(),
            out@.map_values(|e: &str| e@) == all_exes(tool_table().take(i as int)),
        decreases specs@.len() - i,
    {
        let spec = specs[i];
        assert(tool_facts(specs@[i as int]) == tool_table()[i as int]);
        let ghost head = out@.map_values(|e: &str| e@);
        let mut k: usize = 0;
        while k < spec.exes.len()
            invariant
                tool_facts(spec) == tool_table()[i as int],
                k <= spec.exes@.len(),
                out@.map_values(|e: &str| e@) == head + tool_table()[i as int].exes.take(k as int),
            decreases spec.exes@.len() - k,
        {
            let ghost before = out@.map_values(|e: &str| e@);
            out.push(spec.exes[k]);
            proof {
                let ex = tool_table()[i as int].exes;
                assert(ex[k as int] == spec.exes@[k as int]@);
                let after = out@.map_values(|e: &str| e@);
                assert(after.len() == before.len() + 1);
                assert forall|j: int| 0 <= j < after.len() implies after[j] == (head + ex.take(k + 1))[j] by {
                    if j < before.len() {
                        assert(after[j] == out@[j]@);
                        assert(before[j] == (head + ex.take(k as int))[j]);
                    }
                }
                assert(after =~= head + ex.take(k + 1));
            }
            k = k + 1;
        }
        proof {
            assert(tool_table()[i as int].exes.take(k as int) =~= tool_table()[i as int].exes);
            assert(tool_table().take(i + 1).drop_last() =~= tool_table().take(i as int));
        }
        i = i + 1;
    }
    proof {
        assert(tool_table().take(i as int) =~= tool_table());
    }
    out
}

// ---------------------------------------------------------------------------
// Roots
// ---------------------------------------------------------------------------

/// Suggested scan roots: of the user profile and the known cache parents
/// (in that order) those that exist on disk, each once.
pub fn default_roots(existing: &Vec<String>) -> (r: Vec<String>)
    ensures
        r.deep_view() == dedup(existing.deep_view()),
{
    crate::scan::scanned_roots(existing)
}

/// Common developer folder names directly under the user profile.
pub open spec fn dev_dir_names() -> Seq<Seq<char>> {
    seq!["Desktop"@, "Documents"@, "Downloads"@, "source"@, "src"@, "code"@, "dev"@, "projects"@, "repos"@, "work"@, "git"@, "GitHub"@, "Development"@, "workspace"@]
}

/// The places developers keep code, under the user profile `home`: each
/// common folder name, then GitHub Desktop's default clone location.
pub open spec fn project_candidates(home: Seq<char>) -> Seq<Seq<char>> {
    dev_dir_names().map_values(|n: Seq<char>| pushed_path(home, n)).push(
        pushed_path(pushed_path(home, "Documents"@), "GitHub"@),
    )
}

const DEV_DIR_NAMES: [&'static str; 14] = ["Desktop", "Documents", "Downloads", "source", "src", "code", "dev", "projects", "repos", "work", "git", "GitHub", "Development", "workspace"];

/// The candidate project roots under `home`, for the caller to keep those
/// that exist.
pub fn project_root_candidates(home: &str) -> (r: Vec<String>)
    ensures
        r.deep_view() == project_candidates(home@),
{
    let ghost names = DEV_DIR_NAMES@.map_values(|n: &str| n@);
    assert(names =~= dev_dir_names());
    let mut out: Vec<String> = Vec::new();
    let mut i: usize = 0;
    while i < 14
        invariant
            names == DEV_DIR_NAMES@.map_values(|n: &str| n@),
            names == dev_dir_names(),
            i <= 14,
            out.deep_view() == dev_dir_names().take(i as int).map_values(|n: Seq<char>| pushed_path(home@, n)),
        decreases 14 - i,
    {
        let ghost before = out.deep_view();
        let p = path_push(home, DEV_DIR_NAMES[i]);
        assert(names[i as int] == DEV_DIR_NAMES@[i as int]@);
        assert(p@ == pushed_path(home@, dev_dir_names()[i as int]));
        out.push(p);
        assert(out.deep_view() =~= before.push(pushed_path(home@, dev_dir_names()[i as int])));
        assert(out.deep_view() =~= dev_dir_names().take(i as int + 1).map_values(|n: Seq<char>| pushed_path(home@, n)));
        i = i + 1;
    }
    assert(dev_dir_names().take(14) =~= dev_dir_names());
    let docs = path_push(home, "Documents");
    let ghost before = out.deep_view();
    out.push(path_push(docs.as_str(), "GitHub"));
    assert(out.deep_view() =~= project_candidates(home@));
    out
}

/// Targeted roots for the pattern walk: of the candidates, those that exist
/// on disk (`existing`, in candidate order), each once.
pub fn project_scan_roots(existing: &Vec<String>) -> (r: Vec<String>)
    ensures
        r.deep_view() == dedup(existing.deep_view()),
{
    crate::scan::scanned_roots(existing)
}

/// The path whose volume a drive query reads: the given mount, else the
/// first default root, else `C:\`.
pub fn resolve_drive_path(mount: Option<String>, roots: &Vec<String>) -> (r: String)
    ensures
        mount matches Some(m) ==> r == m,
        mount is None && roots@.len() > 0 ==> r == roots@[0],
        mount is None && roots@.len() == 0 ==> r@ == "C:\\"@,
{
    match mount {
        Some(m) => m,
        None => {
            if roots.len() > 0 {
                roots[0].clone()
            } else {
                String::from_str("C:\\")
            }
        },
    }
}

} // verus!
