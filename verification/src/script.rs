//! Parsing of script commands: `melos exec` flags, the command after `--`,
//! quoting, `melos run <name>` references and shell line continuations.
use vstd::prelude::*;
use crate::text::{parse_u64, parse_unsigned, parse_usize, chars_eq_str, contains, contains_str, from_chars, join, join_chars, lemma_deep_view_chars, lemma_rskip_ws_bounds, lemma_rskip_ws_sub, lemma_skip_ws_bounds, lemma_skip_ws_sub, replace_all, replace_str, rskip_ws, rskip_ws_exec, skip_ws_exec, slice_chars, split_whitespace, split_ws, starts_with, starts_with_str, to_chars, trim, trim_chars};

verus! {

// ---------------------------------------------------------------------------
// strip_outer_quotes
// ---------------------------------------------------------------------------

/// `t` starts and ends with the same quote character (and holds two or more).
pub open spec fn is_quote_pair(t: Seq<char>) -> bool {
    t.len() >= 2 && ((t[0] == '"' && t.last() == '"') || (t[0] == '\'' && t.last() == '\''))
}

/// The trimmed text with one pair of matching outer quotes removed.
pub open spec fn strip_outer_quotes_spec(s: Seq<char>) -> Seq<char> {
    let t = trim(s);
    if is_quote_pair(t) {
        t.subrange(1, t.len() - 1)
    } else {
        t
    }
}

pub fn strip_outer_quotes_chars(s: &[char]) -> (r: Vec<char>)
    ensures
        r@ == strip_outer_quotes_spec(s@),
{
    let t = trim_chars(s);
    let n = t.len();
    if n >= 2 && ((t[0] == '"' && t[n - 1] == '"') || (t[0] == '\'' && t[n - 1] == '\'')) {
        slice_chars(t.as_slice(), 1, n - 1)
    } else {
        t
    }
}

/// Strips matching outer quote characters (double or single) from the trimmed
/// text: `"flutter pub upgrade && exit"` becomes `flutter pub upgrade && exit`.
pub fn strip_outer_quotes(s: &str) -> (r: String)
    ensures
        r@ == strip_outer_quotes_spec(s@),
{
    let v = to_chars(s);
    let r = strip_outer_quotes_chars(v.as_slice());
    from_chars(r.as_slice())
}

// ---------------------------------------------------------------------------
// is_exec_command
// ---------------------------------------------------------------------------

pub open spec fn is_exec_command_spec(c: Seq<char>) -> bool {
    let t = trim(c);
    contains(t, "melos exec"@) || contains(t, "melos-rs exec"@)
}

/// Whether a script command runs in each package (`melos exec` or
/// `melos-rs exec`).
pub fn is_exec_command(command: &str) -> (r: bool)
    ensures
        r == is_exec_command_spec(command@),
{
    let v = to_chars(command);
    let t = trim_chars(v.as_slice());
    contains_str(t.as_slice(), "melos exec") || contains_str(t.as_slice(), "melos-rs exec")
}

// ---------------------------------------------------------------------------
// extract_exec_command
// ---------------------------------------------------------------------------

/// First index at or after `i` whose word is `w` (or `parts.len()`).
pub open spec fn position_of(parts: Seq<Seq<char>>, w: Seq<char>, i: int) -> int
    decreases parts.len() - i,
{
    if i < 0 {
        position_of(parts, w, 0)
    } else if i < parts.len() && parts[i] != w {
        position_of(parts, w, i + 1)
    } else {
        i
    }
}

/// Exec flags that take the next word as their value.
pub open spec fn is_valued_flag(p: Seq<char>) -> bool {
    p == "-c"@ || p == "--concurrency"@ || p == "--timeout"@ || p == "--file-exists"@
}

/// Exec flags that stand alone.
pub open spec fn is_switch_flag(p: Seq<char>) -> bool {
    p == "--fail-fast"@ || p == "--order-dependents"@ || p == "--dry-run"@ || starts_with(
        p,
        "--file-exists="@,
    )
}

/// The words of an exec command that are not exec flags or their values.
pub open spec fn command_words(parts: Seq<Seq<char>>) -> Seq<Seq<char>>
    decreases parts.len(),
{
    if parts.len() == 0 {
        seq![]
    } else if is_valued_flag(parts[0]) {
        if parts.len() >= 2 {
            command_words(parts.skip(2))
        } else {
            seq![]
        }
    } else if is_switch_flag(parts[0]) {
        command_words(parts.drop_first())
    } else {
        seq![parts[0]] + command_words(parts.drop_first())
    }
}

/// The command that `melos exec [flags] -- <command>` runs in each package:
/// the words after a standalone `--`, or, without one, the words that remain
/// once the `melos exec` prefix and the known flags are removed; in both
/// cases joined by single spaces and stripped of outer quotes.
pub open spec fn extract_exec_command_spec(c: Seq<char>) -> Seq<char> {
    let parts = split_ws(c);
    let pos = position_of(parts, "--"@, 0);
    if pos < parts.len() {
        strip_outer_quotes_spec(join(parts.skip(pos + 1), " "@))
    } else {
        let stripped = replace_all(replace_all(c, "melos-rs exec"@, Seq::empty()), "melos exec"@, Seq::empty());
        strip_outer_quotes_spec(trim(join(command_words(split_ws(stripped)), " "@)))
    }
}

pub fn position_of_exec(parts: &Vec<Vec<char>>, w: &str) -> (r: usize)
    ensures
        r == position_of(parts.deep_view(), w@, 0),
        r <= parts.len(),
{
    let mut i: usize = 0;
    proof {
        lemma_deep_view_chars(*parts);
    }
    while i < parts.len() && !chars_eq_str(parts[i].as_slice(), w)
        invariant
            i <= parts.len(),
            position_of(parts.deep_view(), w@, 0) == position_of(parts.deep_view(), w@, i as int),
            forall|k: int| 0 <= k < parts@.len() ==> #[trigger] parts.deep_view()[k] == parts@[k]@,
        decreases parts.len() - i,
    {
        i += 1;
    }
    i
}

pub fn is_valued_flag_exec(p: &[char]) -> (r: bool)
    ensures
        r == is_valued_flag(p@),
{
    chars_eq_str(p, "-c") || chars_eq_str(p, "--concurrency") || chars_eq_str(p, "--timeout")
        || chars_eq_str(p, "--file-exists")
}

pub fn is_switch_flag_exec(p: &[char]) -> (r: bool)
    ensures
        r == is_switch_flag(p@),
{
    chars_eq_str(p, "--fail-fast") || chars_eq_str(p, "--order-dependents") || chars_eq_str(
        p,
        "--dry-run",
    ) || starts_with_str(p, "--file-exists=")
}

pub fn command_words_exec(parts: &Vec<Vec<char>>) -> (r: Vec<Vec<char>>)
    ensures
        r.deep_view() == command_words(parts.deep_view()),
{
    let mut out: Vec<Vec<char>> = Vec::new();
    let mut i: usize = 0;
    proof {
        lemma_deep_view_chars(*parts);
    }
    assert(parts.deep_view().skip(0) == parts.deep_view());
    assert(out.deep_view() + command_words(parts.deep_view()) =~= command_words(parts.deep_view()));
    while i < parts.len()
        invariant
            i <= parts.len(),
            parts.deep_view().len() == parts@.len(),
            forall|m: int| 0 <= m < parts@.len() ==> #[trigger] parts.deep_view()[m] == parts@[m]@,
            out.deep_view() + command_words(parts.deep_view().skip(i as int)) == command_words(
                parts.deep_view(),
            ),
        decreases parts.len() - i,
    {
        let ghost rest = parts.deep_view().skip(i as int);
        let ghost before = out.deep_view();
        assert(rest[0] == parts@[i as int]@);
        if is_valued_flag_exec(parts[i].as_slice()) {
            if i + 1 < parts.len() {
                assert(rest.skip(2) =~= parts.deep_view().skip(i + 2));
                assert(command_words(rest) == command_words(rest.skip(2)));
                i += 2;
            } else {
                assert(command_words(rest) == Seq::<Seq<char>>::empty());
                assert(before + Seq::<Seq<char>>::empty() == before);
                assert(parts.deep_view().skip(parts.len() as int) == Seq::<Seq<char>>::empty());
                i = parts.len();
            }
        } else if is_switch_flag_exec(parts[i].as_slice()) {
            assert(rest.drop_first() =~= parts.deep_view().skip(i + 1));
            assert(command_words(rest) == command_words(rest.drop_first()));
            i += 1;
        } else {
            let w = slice_chars(parts[i].as_slice(), 0, parts[i].len());
            out.push(w);
            assert(w.deep_view() =~= w@);
            assert(out.deep_view() =~= before.push(w@));
            assert(rest.drop_first() =~= parts.deep_view().skip(i + 1));
            assert(w@ =~= parts@[i as int]@);
            assert(rest.len() > 0);
            assert(!is_valued_flag(rest[0]) && !is_switch_flag(rest[0]));
            assert(command_words(rest) == seq![w@] + command_words(rest.drop_first()));
            assert(before.push(w@) + command_words(rest.drop_first()) == before + (seq![w@]
                + command_words(rest.drop_first())));
            i += 1;
        }
    }
    assert(parts.deep_view().skip(i as int) == Seq::<Seq<char>>::empty());
    assert(out.deep_view() + Seq::<Seq<char>>::empty() == out.deep_view());
    out
}

/// The words of `parts` from index `i` on, as vectors.
pub fn words_skip(parts: &Vec<Vec<char>>, i: usize) -> (r: Vec<Vec<char>>)
    requires
        i <= parts.len(),
    ensures
        r.deep_view() == parts.deep_view().skip(i as int),
{
    let mut out: Vec<Vec<char>> = Vec::new();
    let mut k = i;
    proof {
        lemma_deep_view_chars(*parts);
    }
    while k < parts.len()
        invariant
            forall|m: int| 0 <= m < parts@.len() ==> #[trigger] parts.deep_view()[m] == parts@[m]@,
            i <= k <= parts.len(),
            out.deep_view() == parts.deep_view().subrange(i as int, k as int),
        decreases parts.len() - k,
    {
        let w = slice_chars(parts[k].as_slice(), 0, parts[k].len());
        let ghost before = out.deep_view();
        out.push(w);
        assert(w.deep_view() =~= w@);
        assert(parts.deep_view()[k as int] == w@);
        assert(out.deep_view() =~= before.push(w@));
        assert(parts.deep_view().subrange(i as int, k + 1) =~= parts.deep_view().subrange(
            i as int,
            k as int,
        ).push(parts.deep_view()[k as int]));
        k += 1;
    }
    out
}

/// Extracts the command that `melos exec [flags] -- <command>` runs in each
/// package.
pub fn extract_exec_command(command: &str) -> (r: String)
    ensures
        r@ == extract_exec_command_spec(command@),
{
    let v = to_chars(command);
    let parts = split_whitespace(v.as_slice());
    let pos = position_of_exec(&parts, "--");
    if pos < parts.len() {
        let rest = words_skip(&parts, pos + 1);
        let sp = to_chars(" ");
        let joined = join_chars(&rest, sp.as_slice());
        let r = strip_outer_quotes_chars(joined.as_slice());
        return from_chars(r.as_slice());
    }
    let empty: Vec<char> = Vec::new();
    proof {
        assert("melos-rs exec"@.len() > 0) by {
            reveal_strlit("melos-rs exec");
        }
        assert("melos exec"@.len() > 0) by {
            reveal_strlit("melos exec");
        }
    }
    let s1 = replace_str(v.as_slice(), "melos-rs exec", empty.as_slice());
    let s2 = replace_str(s1.as_slice(), "melos exec", empty.as_slice());
    let words = split_whitespace(s2.as_slice());
    let kept = command_words_exec(&words);
    let sp = to_chars(" ");
    let joined = join_chars(&kept, sp.as_slice());
    let t = trim_chars(joined.as_slice());
    let r = strip_outer_quotes_chars(t.as_slice());
    from_chars(r.as_slice())
}

// ---------------------------------------------------------------------------
// extract_melos_run_script_name
// ---------------------------------------------------------------------------

/// The text after a `melos-rs run ` or `melos run ` prefix of the trimmed
/// command.
pub open spec fn run_rest(t: Seq<char>) -> Option<Seq<char>> {
    if starts_with(t, "melos-rs run "@) {
        Some(t.skip("melos-rs run "@.len() as int))
    } else if starts_with(t, "melos run "@) {
        Some(t.skip("melos run "@.len() as int))
    } else {
        None
    }
}

/// The script name of a plain `melos[-rs] run <name>` command: a single
/// non-empty word with nothing after it.
pub open spec fn run_script_name_spec(c: Seq<char>) -> Option<Seq<char>> {
    match run_rest(trim(c)) {
        Some(rest) => {
            let r = trim(rest);
            if r.len() == 0 || contains(r, " "@) {
                None
            } else {
                Some(r)
            }
        },
        None => None,
    }
}

/// Extracts the script name from `melos-rs run <name>` or `melos run <name>`;
/// `None` when the command has another form or arguments after the name.
pub fn extract_melos_run_script_name(command: &str) -> (r: Option<&str>)
    ensures
        match r {
            Some(name) => run_script_name_spec(command@) == Some(name@),
            None => run_script_name_spec(command@) is None,
        },
{
    let v = to_chars(command);
    let ghost s = v@;
    let a = skip_ws_exec(v.as_slice(), 0);
    let b = rskip_ws_exec(v.as_slice(), v.len());
    proof {
        lemma_skip_ws_bounds(s, 0);
        lemma_rskip_ws_bounds(s, s.len() as int);
    }
    if a >= b {
        proof {
            assert(trim(s) == Seq::<char>::empty());
            reveal_strlit("melos-rs run ");
            reveal_strlit("melos run ");
        }
        return None;
    }
    let t = slice_chars(v.as_slice(), a, b);
    assert(t@ == trim(s));
    let k: usize;
    if starts_with_str(t.as_slice(), "melos-rs run ") {
        proof {
            reveal_strlit("melos-rs run ");
        }
        k = 13;
    } else if starts_with_str(t.as_slice(), "melos run ") {
        proof {
            reveal_strlit("melos run ");
        }
        k = 10;
    } else {
        return None;
    }
    let ghost rest = t@.skip(k as int);
    assert(run_rest(trim(s)) == Some(rest));
    // `rest` is `s[a + k .. b]`; its trimmed form starts at the first
    // non-whitespace index at or after `a + k` and ends at `b`.
    assert(rest == s.subrange(a + k, b as int));
    let ra = skip_ws_exec(v.as_slice(), a + k);
    proof {
        lemma_skip_ws_sub(s, a + k, b as int, 0);
        lemma_rskip_ws_sub(s, a + k, b as int, rest.len() as int);
        assert(rskip_ws(s, b as int) == b) by {
            lemma_rskip_ws_bounds(s, s.len() as int);
        }
    }
    if ra >= b {
        assert(trim(rest) == Seq::<char>::empty());
        return None;
    }
    assert(trim(rest) == rest.subrange(ra - (a + k), rest.len() as int));
    assert(trim(rest) == s.subrange(ra as int, b as int));
    let r = slice_chars(v.as_slice(), ra, b);
    if contains_str(r.as_slice(), " ") {
        return None;
    }
    Some(command.substring_char(ra, b))
}

// ---------------------------------------------------------------------------
// normalize_line_continuations
// ---------------------------------------------------------------------------

/// First index at or after `i` that holds neither a space nor a tab.
pub open spec fn skip_blanks(s: Seq<char>, i: int) -> int
    decreases s.len() - i,
{
    if i < 0 {
        skip_blanks(s, 0)
    } else if i < s.len() && (s[i] == ' ' || s[i] == '\t') {
        skip_blanks(s, i + 1)
    } else {
        i
    }
}

pub proof fn lemma_skip_blanks_bounds(s: Seq<char>, i: int)
    ensures
        i >= 0 ==> i <= skip_blanks(s, i),
        0 <= i <= s.len() ==> skip_blanks(s, i) <= s.len(),
    decreases s.len() - i,
{
    if i < 0 {
        lemma_skip_blanks_bounds(s, 0);
    } else if i < s.len() && (s[i] == ' ' || s[i] == '\t') {
        lemma_skip_blanks_bounds(s, i + 1);
    }
}

/// `s` from index `i` on with every backslash-newline pair, and the spaces and
/// tabs that follow it, collapsed into one space.
pub open spec fn normalize_from(s: Seq<char>, i: int) -> Seq<char>
    decreases s.len() - i,
{
    if i < 0 || i >= s.len() {
        seq![]
    } else if s[i] == '\\' && i + 1 < s.len() && s[i + 1] == '\n' {
        proof {
            lemma_skip_blanks_bounds(s, i + 2);
        }
        seq![' '] + normalize_from(s, skip_blanks(s, i + 2))
    } else {
        seq![s[i]] + normalize_from(s, i + 1)
    }
}

/// Collapses shell line continuations (a backslash before a newline, with the
/// next line's leading spaces and tabs) into single spaces.
pub fn normalize_line_continuations(command: &str) -> (r: String)
    ensures
        r@ == normalize_from(command@, 0),
{
    let v = to_chars(command);
    let mut out: Vec<char> = Vec::new();
    let mut i: usize = 0;
    assert(out@ + normalize_from(v@, 0) =~= normalize_from(v@, 0));
    while i < v.len()
        invariant
            i <= v.len(),
            v@ == command@,
            out@ + normalize_from(v@, i as int) == normalize_from(v@, 0),
        decreases v.len() - i,
    {
        let ghost before = out@;
        if v[i] == '\\' && i + 1 < v.len() && v[i + 1] == '\n' {
            let mut j = i + 2;
            while j < v.len() && (v[j] == ' ' || v[j] == '\t')
                invariant
                    i + 2 <= j <= v.len(),
                    skip_blanks(v@, i + 2) == skip_blanks(v@, j as int),
                decreases v.len() - j,
            {
                j += 1;
            }
            out.push(' ');
            assert(before.push(' ') + normalize_from(v@, j as int) == before + (seq![' ']
                + normalize_from(v@, j as int)));
            i = j;
        } else {
            out.push(v[i]);
            assert(before.push(v@[i as int]) + normalize_from(v@, i + 1) == before + (seq![v@[i as int]]
                + normalize_from(v@, i + 1)));
            i += 1;
        }
    }
    assert(out@ + Seq::<char>::empty() == out@);
    from_chars(out.as_slice())
}

// ---------------------------------------------------------------------------
// parse_exec_flags
// ---------------------------------------------------------------------------

/// Flags of a `melos exec [flags] -- <command>` string. The timeout is in
/// whole seconds.
#[derive(Debug, Clone)]
pub struct ExecFlags {
    pub concurrency: usize,
    pub fail_fast: bool,
    pub order_dependents: bool,
    pub timeout: Option<u64>,
    pub dry_run: bool,
    pub file_exists: Option<String>,
}

/// The mathematical value of an [`ExecFlags`].
pub struct ExecFlagsView {
    pub concurrency: usize,
    pub fail_fast: bool,
    pub order_dependents: bool,
    pub timeout: Option<u64>,
    pub dry_run: bool,
    pub file_exists: Option<Seq<char>>,
}

pub open spec fn opt_view(o: Option<String>) -> Option<Seq<char>> {
    match o {
        Some(s) => Some(s@),
        None => None,
    }
}

impl View for ExecFlags {
    type V = ExecFlagsView;

    open spec fn view(&self) -> ExecFlagsView {
        ExecFlagsView {
            concurrency: self.concurrency,
            fail_fast: self.fail_fast,
            order_dependents: self.order_dependents,
            timeout: self.timeout,
            dry_run: self.dry_run,
            file_exists: opt_view(self.file_exists),
        }
    }
}

/// The flags in force before any flag is read: five packages at a time,
/// everything else off.
pub open spec fn default_exec_flags() -> ExecFlagsView {
    ExecFlagsView {
        concurrency: 5,
        fail_fast: false,
        order_dependents: false,
        timeout: None,
        dry_run: false,
        file_exists: None,
    }
}

impl Default for ExecFlags {
    fn default() -> (r: Self)
        ensures
            r@ == default_exec_flags(),
    {
        ExecFlags {
            concurrency: 5,
            fail_fast: false,
            order_dependents: false,
            timeout: None,
            dry_run: false,
            file_exists: None,
        }
    }
}

pub open spec fn with_concurrency(f: ExecFlagsView, n: usize) -> ExecFlagsView {
    ExecFlagsView { concurrency: n, ..f }
}

pub open spec fn with_fail_fast(f: ExecFlagsView) -> ExecFlagsView {
    ExecFlagsView { fail_fast: true, ..f }
}

pub open spec fn with_order_dependents(f: ExecFlagsView) -> ExecFlagsView {
    ExecFlagsView { order_dependents: true, ..f }
}

pub open spec fn with_dry_run(f: ExecFlagsView) -> ExecFlagsView {
    ExecFlagsView { dry_run: true, ..f }
}

pub open spec fn with_timeout(f: ExecFlagsView, secs: u64) -> ExecFlagsView {
    ExecFlagsView { timeout: Some(secs), ..f }
}

pub open spec fn with_file_exists(f: ExecFlagsView, path: Seq<char>) -> ExecFlagsView {
    ExecFlagsView { file_exists: Some(path), ..f }
}

/// The flags after reading the words of `parts` from index `i` on, starting
/// from `f`. Reading stops at a standalone `--`. A valued flag takes the next
/// word (when there is one) even where that word is not a valid value; a
/// count that does not parse, or a timeout of zero, leaves the flag as it was.
pub open spec fn flags_from(parts: Seq<Seq<char>>, i: int, f: ExecFlagsView) -> ExecFlagsView
    decreases parts.len() - i,
{
    if i < 0 || i >= parts.len() {
        f
    } else {
        let p = parts[i];
        let has_next = i + 1 < parts.len();
        if p == "-c"@ || p == "--concurrency"@ {
            if has_next {
                let g = match parse_unsigned(parts[i + 1], usize::MAX as nat) {
                    Some(n) => with_concurrency(f, n as usize),
                    None => f,
                };
                flags_from(parts, i + 2, g)
            } else {
                flags_from(parts, i + 1, f)
            }
        } else if p == "--fail-fast"@ {
            flags_from(parts, i + 1, with_fail_fast(f))
        } else if p == "--order-dependents"@ {
            flags_from(parts, i + 1, with_order_dependents(f))
        } else if p == "--dry-run"@ {
            flags_from(parts, i + 1, with_dry_run(f))
        } else if p == "--timeout"@ {
            if has_next {
                let g = match parse_unsigned(parts[i + 1], u64::MAX as nat) {
                    Some(n) => if n > 0 {
                        with_timeout(f, n as u64)
                    } else {
                        f
                    },
                    None => f,
                };
                flags_from(parts, i + 2, g)
            } else {
                flags_from(parts, i + 1, f)
            }
        } else if p == "--file-exists"@ {
            if has_next {
                flags_from(parts, i + 2, with_file_exists(f, strip_outer_quotes_spec(parts[i + 1])))
            } else {
                flags_from(parts, i + 1, f)
            }
        } else if starts_with(p, "--file-exists="@) {
            flags_from(
                parts,
                i + 1,
                with_file_exists(f, strip_outer_quotes_spec(p.skip("--file-exists="@.len() as int))),
            )
        } else if p == "--"@ {
            f
        } else {
            flags_from(parts, i + 1, f)
        }
    }
}

/// The exec flags of a command string, read word by word from the start.
pub open spec fn parse_exec_flags_spec(command: Seq<char>) -> ExecFlagsView {
    flags_from(split_ws(command), 0, default_exec_flags())
}

/// Parses the exec flags of a `melos exec [flags] -- <command>` string:
/// `-c N` / `--concurrency N`, `--fail-fast`, `--order-dependents`,
/// `--timeout N`, `--dry-run` and `--file-exists[=]<path>`.
pub fn parse_exec_flags(command: &str) -> (r: ExecFlags)
    ensures
        r@ == parse_exec_flags_spec(command@),
{
    let mut flags = ExecFlags::default();
    let v = to_chars(command);
    let parts = split_whitespace(v.as_slice());
    proof {
        lemma_deep_view_chars(parts);
    }
    let ghost dv = parts.deep_view();
    let mut i: usize = 0;
    while i < parts.len()
        invariant
            i <= parts.len(),
            dv == parts.deep_view(),
            dv == split_ws(command@),
            dv.len() == parts@.len(),
            forall|m: int| 0 <= m < parts@.len() ==> #[trigger] dv[m] == parts@[m]@,
            flags_from(dv, i as int, flags@) == parse_exec_flags_spec(command@),
        decreases parts.len() - i,
    {
        let p = parts[i].as_slice();
        assert(dv[i as int] == p@);
        let has_next = i + 1 < parts.len();
        if chars_eq_str(p, "-c") || chars_eq_str(p, "--concurrency") {
            if has_next {
                match parse_usize(parts[i + 1].as_slice()) {
                    Some(n) => {
                        flags.concurrency = n;
                    },
                    None => {},
                }
                i += 2;
            } else {
                i += 1;
            }
        } else if chars_eq_str(p, "--fail-fast") {
            flags.fail_fast = true;
            i += 1;
        } else if chars_eq_str(p, "--order-dependents") {
            flags.order_dependents = true;
            i += 1;
        } else if chars_eq_str(p, "--dry-run") {
            flags.dry_run = true;
            i += 1;
        } else if chars_eq_str(p, "--timeout") {
            if has_next {
                match parse_u64(parts[i + 1].as_slice()) {
                    Some(n) => {
                        if n > 0 {
                            flags.timeout = Some(n);
                        }
                    },
                    None => {},
                }
                i += 2;
            } else {
                i += 1;
            }
        } else if chars_eq_str(p, "--file-exists") {
            if has_next {
                let val = strip_outer_quotes_chars(parts[i + 1].as_slice());
                flags.file_exists = Some(from_chars(val.as_slice()));
                i += 2;
            } else {
                i += 1;
            }
        } else if starts_with_str(p, "--file-exists=") {
            proof {
                reveal_strlit("--file-exists=");
            }
            let rest = slice_chars(p, 14, p.len());
            assert(rest@ =~= p@.skip("--file-exists="@.len() as int));
            let val = strip_outer_quotes_chars(rest.as_slice());
            flags.file_exists = Some(from_chars(val.as_slice()));
            i += 1;
        } else if chars_eq_str(p, "--") {
            return flags;
        } else {
            i += 1;
        }
    }
    flags
}

} // verus!

verus! {

/// Whether `s` holds a backslash directly before a newline.
pub open spec fn has_continuation(s: Seq<char>) -> bool {
    exists|k: int| 0 <= k && k + 1 < s.len() && #[trigger] continuation_at(s, k)
}

/// Whether a backslash at `k` stands before a newline.
pub open spec fn continuation_at(s: Seq<char>, k: int) -> bool {
    s[k] == '\\' && s[k + 1] == '\n'
}

proof fn lemma_normalize_first(s: Seq<char>, i: int)
    requires
        0 <= i < s.len(),
    ensures
        normalize_from(s, i).len() > 0,
        normalize_from(s, i)[0] == s[i] || normalize_from(s, i)[0] == ' ',
{
}

proof fn lemma_normalize_no_continuation(s: Seq<char>, i: int)
    ensures
        !has_continuation(normalize_from(s, i)),
    decreases s.len() - i,
{
    let r = normalize_from(s, i);
    if i < 0 || i >= s.len() {
    } else if s[i] == '\\' && i + 1 < s.len() && s[i + 1] == '\n' {
        lemma_skip_blanks_bounds(s, i + 2);
        let j = skip_blanks(s, i + 2);
        lemma_normalize_no_continuation(s, j);
        assert forall|k: int| 0 <= k && k + 1 < r.len() implies !#[trigger] continuation_at(r, k) by {
            if k >= 1 {
                assert(r[k] == normalize_from(s, j)[k - 1]);
                assert(r[k + 1] == normalize_from(s, j)[k]);
                assert(!continuation_at(normalize_from(s, j), k - 1));
            }
        }
    } else {
        lemma_normalize_no_continuation(s, i + 1);
        let t = normalize_from(s, i + 1);
        assert forall|k: int| 0 <= k && k + 1 < r.len() implies !#[trigger] continuation_at(r, k) by {
            if k == 0 {
                lemma_normalize_first(s, i + 1);
                assert(r[1] == t[0]);
            } else {
                assert(r[k] == t[k - 1]);
                assert(r[k + 1] == t[k]);
                assert(!continuation_at(t, k - 1));
            }
        }
    }
}

proof fn lemma_normalize_plain(s: Seq<char>, i: int)
    requires
        0 <= i <= s.len(),
        !has_continuation(s),
    ensures
        normalize_from(s, i) == s.skip(i),
    decreases s.len() - i,
{
    if i < s.len() {
        if s[i] == '\\' && i + 1 < s.len() {
            assert(!continuation_at(s, i));
        }
        lemma_normalize_plain(s, i + 1);
        assert(seq![s[i]] + s.skip(i + 1) =~= s.skip(i));
    } else {
        assert(s.skip(i) =~= Seq::<char>::empty());
    }
}

/// After normalizing, no backslash stands before a newline; a command with
/// no continuation comes back unchanged, and so normalizing twice is
/// normalizing once.
pub proof fn lemma_normalize_laws(s: Seq<char>)
    ensures
        !has_continuation(normalize_from(s, 0)),
        !has_continuation(s) ==> normalize_from(s, 0) == s,
        normalize_from(normalize_from(s, 0), 0) == normalize_from(s, 0),
{
    lemma_normalize_no_continuation(s, 0);
    lemma_normalize_plain(normalize_from(s, 0), 0);
    assert(normalize_from(s, 0).skip(0) =~= normalize_from(s, 0));
    if !has_continuation(s) {
        lemma_normalize_plain(s, 0);
        assert(s.skip(0) =~= s);
    }
}

} // verus!
