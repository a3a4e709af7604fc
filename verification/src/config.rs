//! Resolution of raw named string inputs into a typed, immutable session
//! configuration. Coercion is loose and best-effort by design: empty or
//! unparsable values fall back silently to the documented defaults.

use vstd::prelude::*;

use crate::text::{
    all_digits, digit_val, digits_val, eq_fold, folds_to, is_digit, is_space,
    lemma_trim_all_space, seq_folds_to, seq_views, str_eq, trim_spec, trim_str,
};

verus! {

/// The typed session configuration, built once per process invocation
/// and read-only for its entire lifetime.
#[derive(Debug, Clone)]
pub struct InputConfig {
    pub ssh_bin: String,
    pub args: Option<Vec<String>>,
    pub host: String,
    pub pre_exit_cmd: Vec<String>,
    pub pre_sleep: u32,
    pub pre_timeout: u32,
    pub run: String,
    pub allow_run_failure: bool,
    pub post_run: Option<String>,
    pub allow_post_run_failure: bool,
}

/// A raw string value resolved against a default: the default where the
/// raw value trims to nothing, the trimmed raw value otherwise.
pub open spec fn resolve_string_spec(raw: Seq<char>, dft: Seq<char>) -> Seq<char> {
    if trim_spec(raw).len() == 0 {
        dft
    } else {
        trim_spec(raw)
    }
}

/// Substitute `dft` for a raw value that is empty or all white space;
/// keep any other value, trimmed.
pub fn not_empty_or(raw: &str, dft: &str) -> (r: String)
    ensures
        r@ == resolve_string_spec(raw@, dft@),
{
    let t = trim_str(raw);
    if t.unicode_len() == 0 {
        dft.to_owned()
    } else {
        t.to_owned()
    }
}

/// Whether the trimmed token reads as one of the affirmative keywords,
/// ASCII letters compared case-insensitively.
pub open spec fn truthy(t: Seq<char>) -> bool {
    seq_folds_to(t, "true"@) || seq_folds_to(t, "y"@) || seq_folds_to(t, "yes"@) || seq_folds_to(
        t,
        "on"@,
    ) || seq_folds_to(t, "ok"@)
}

/// Whether the trimmed token reads as one of the negative keywords,
/// ASCII letters compared case-insensitively.
pub open spec fn falsy(t: Seq<char>) -> bool {
    seq_folds_to(t, "false"@) || seq_folds_to(t, "n"@) || seq_folds_to(t, "no"@) || seq_folds_to(
        t,
        "off"@,
    ) || seq_folds_to(t, "err"@)
}

/// A raw boolean input resolved against a default: empty input and any
/// token outside the two keyword sets give the default.
pub open spec fn resolve_bool_spec(raw: Seq<char>, dft: bool) -> bool {
    let t = trim_spec(raw);
    if t.len() == 0 {
        dft
    } else if falsy(t) {
        false
    } else if truthy(t) {
        true
    } else {
        dft
    }
}

/// Read a loosely typed boolean input: keyword matching is
/// case-insensitive, and anything unrecognised falls back to `dft`.
pub fn parse_gh_bool(raw: &str, dft: bool) -> (b: bool)
    ensures
        b == resolve_bool_spec(raw@, dft),
{
    let t = trim_str(raw);
    if t.unicode_len() == 0 {
        return dft;
    }
    if eq_fold(t, "false") || eq_fold(t, "n") || eq_fold(t, "no") || eq_fold(t, "off") || eq_fold(
        t,
        "err",
    ) {
        return false;
    }
    if eq_fold(t, "true") || eq_fold(t, "y") || eq_fold(t, "yes") || eq_fold(t, "on") || eq_fold(
        t,
        "ok",
    ) {
        return true;
    }
    dft
}

/// An input that is empty or white space alone resolves to the
/// supplied boolean default, whichever that is.
pub proof fn lemma_bool_empty_default(raw: Seq<char>, dft: bool)
    requires
        forall|i: int| 0 <= i < raw.len() ==> is_space(raw[i]),
    ensures
        resolve_bool_spec(raw, dft) == dft,
{
    lemma_trim_all_space(raw);
}

/// Keyword matching is case-insensitive and the two keyword sets are
/// disjoint: a trimmed token reading as `y`, `yes`, `on`, `ok` or
/// `true` resolves to true, one reading as `n`, `no`, `off`, `err` or
/// `false` resolves to false, and any other non-empty token falls back
/// to the supplied default.
pub proof fn lemma_bool_keywords(raw: Seq<char>, dft: bool)
    ensures
        truthy(trim_spec(raw)) ==> resolve_bool_spec(raw, dft) == true,
        falsy(trim_spec(raw)) ==> resolve_bool_spec(raw, dft) == false,
        trim_spec(raw).len() != 0 && !truthy(trim_spec(raw)) && !falsy(trim_spec(raw))
            ==> resolve_bool_spec(raw, dft) == dft,
{
    let t = trim_spec(raw);
    reveal_strlit("true");
    reveal_strlit("y");
    reveal_strlit("yes");
    reveal_strlit("on");
    reveal_strlit("ok");
    reveal_strlit("false");
    reveal_strlit("n");
    reveal_strlit("no");
    reveal_strlit("off");
    reveal_strlit("err");
    if truthy(t) && falsy(t) {
        if seq_folds_to(t, "y"@) && seq_folds_to(t, "n"@) {
            assert(folds_to(t[0], 'y') && folds_to(t[0], 'n'));
        }
        if seq_folds_to(t, "yes"@) && seq_folds_to(t, "off"@) {
            assert(folds_to(t[0], 'y') && folds_to(t[0], 'o'));
        }
        if seq_folds_to(t, "yes"@) && seq_folds_to(t, "err"@) {
            assert(folds_to(t[0], 'y') && folds_to(t[0], 'e'));
        }
        if seq_folds_to(t, "on"@) && seq_folds_to(t, "no"@) {
            assert(folds_to(t[0], 'o') && folds_to(t[0], 'n'));
        }
        if seq_folds_to(t, "ok"@) && seq_folds_to(t, "no"@) {
            assert(folds_to(t[0], 'o') && folds_to(t[0], 'n'));
        }
        assert(false);
    }
}

/// The digit part of a trimmed numeric token: an optional leading `+`
/// sign is accepted, as the unsigned integer parser accepts it.
pub open spec fn number_body(t: Seq<char>) -> Seq<char> {
    if t.len() > 0 && t[0] == '+' {
        t.drop_first()
    } else {
        t
    }
}

/// A raw numeric input resolved: the literal integer where the trimmed
/// token is a decimal number that fits, and 0 for anything else.
pub open spec fn resolve_number_spec(raw: Seq<char>) -> u32 {
    let b = number_body(trim_spec(raw));
    if b.len() > 0 && all_digits(b) && digits_val(b) <= u32::MAX {
        digits_val(b) as u32
    } else {
        0
    }
}

/// Read a loosely typed numeric input: empty, non-numeric and
/// out-of-range tokens all resolve silently to 0.
pub fn parse_gh_num(raw: &str) -> (n: u32)
    ensures
        n == resolve_number_spec(raw@),
{
    let t = trim_str(raw);
    let tlen = t.unicode_len();
    let mut i: usize = 0;
    if tlen > 0 && t.get_char(0) == '+' {
        i = 1;
    }
    proof {
        assert(t@.subrange(i as int, tlen as int) =~= number_body(t@));
    }
    if i >= tlen {
        return 0;
    }
    let mut acc: u64 = 0;
    let mut over: bool = false;
    let mut j: usize = i;
    while j < tlen
        invariant
            i <= j <= tlen,
            tlen == t@.len(),
            t@ == trim_spec(raw@),
            t@.subrange(i as int, tlen as int) == number_body(t@),
            forall|k: int| i <= k < j ==> is_digit(t@[k]),
            !over ==> acc <= u32::MAX && acc == digits_val(t@.subrange(i as int, j as int)),
            over ==> digits_val(t@.subrange(i as int, j as int)) > u32::MAX,
        decreases tlen - j,
    {
        let c = t.get_char(j);
        let cu = c as u32;
        if !(48 <= cu && cu <= 57) {
            proof {
                assert(number_body(t@)[j - i] == t@[j as int]);
                assert(!is_digit(number_body(t@)[j - i]));
                assert(!all_digits(number_body(t@)));
            }
            return 0;
        }
        let ghost pre = t@.subrange(i as int, j as int);
        proof {
            assert(t@.subrange(i as int, j + 1 as int).drop_last() =~= pre);
            assert(t@.subrange(i as int, j + 1 as int).last() == t@[j as int]);
        }
        let d: u64 = (cu - 48) as u64;
        if over {
            proof {
                assert(digits_val(pre) * 10 + digit_val(t@[j as int]) > u32::MAX);
            }
        } else {
            acc = acc * 10 + d;
            if acc > u32::MAX as u64 {
                over = true;
            }
        }
        j = j + 1;
    }
    if over {
        0
    } else {
        proof {
            assert(t@.subrange(i as int, tlen as int) =~= number_body(t@));
        }
        acc as u32
    }
}

/// The token list that quote-aware shell-style splitting yields for a
/// string. The exact splitting rules are the tokenizer's own; the
/// result depends on the input string alone.
pub uninterp spec fn shell_tokens_of(s: Seq<char>) -> Seq<Seq<char>>;

/// Relies on shlex::Shlex, the POSIX-shell-style word splitter: iterating
/// it yields the words of the input, a function of the input alone.
#[verifier::external_body]
pub(crate) fn shell_split(s: &str) -> (r: Vec<String>)
    ensures
        seq_views(r@) == shell_tokens_of(s@),
{
    shlex::Shlex::new(s).collect()
}

/// The resolved probe exit command: the single literal token `exit` both
/// for an empty input and for the literal default, so that the
/// hard-coded default never passes through the tokenizer; any other
/// value is tokenized normally.
pub open spec fn resolve_pre_exit_spec(raw: Seq<char>) -> Seq<Seq<char>> {
    let r = resolve_string_spec(raw, "exit"@);
    if r == "exit"@ {
        seq![r]
    } else {
        shell_tokens_of(r)
    }
}

/// Resolve the probe exit command, bypassing the tokenizer for the
/// literal default.
pub fn resolve_pre_exit(raw: &str) -> (v: Vec<String>)
    ensures
        seq_views(v@) == resolve_pre_exit_spec(raw@),
{
    let r = not_empty_or(raw, "exit");
    if str_eq(r.as_str(), "exit") {
        let mut v: Vec<String> = Vec::new();
        v.push(r);
        proof {
            assert(seq_views(v@) =~= resolve_pre_exit_spec(raw@));
        }
        v
    } else {
        shell_split(r.as_str())
    }
}

/// Build the typed session configuration from the raw named inputs,
/// applying each default and fallback coercion rule.
pub fn get_main_input_config(
    ssh_bin_raw: &str,
    args_raw: &str,
    host_raw: &str,
    pre_exit_cmd_raw: &str,
    pre_sleep_raw: &str,
    pre_timeout_raw: &str,
    run_raw: &str,
    allow_run_failure_raw: &str,
    post_run_raw: &str,
    allow_post_run_failure_raw: &str,
) -> (c: InputConfig)
    ensures
        c.ssh_bin@ == resolve_string_spec(ssh_bin_raw@, "ssh"@),
        c.args is None <==> trim_spec(args_raw@).len() == 0,
        c.args matches Some(v) ==> seq_views(v@) == shell_tokens_of(trim_spec(args_raw@)),
        c.host@ == resolve_string_spec(host_raw@, "127.0.0.1"@),
        seq_views(c.pre_exit_cmd@) == resolve_pre_exit_spec(pre_exit_cmd_raw@),
        c.pre_sleep == resolve_number_spec(pre_sleep_raw@),
        c.pre_timeout == resolve_number_spec(pre_timeout_raw@),
        c.run@ == trim_spec(run_raw@),
        c.allow_run_failure == resolve_bool_spec(allow_run_failure_raw@, false),
        c.post_run is None <==> trim_spec(post_run_raw@).len() == 0,
        c.post_run matches Some(p) ==> p@ == trim_spec(post_run_raw@),
        c.allow_post_run_failure == resolve_bool_spec(allow_post_run_failure_raw@, true),
{
    let ssh_bin = not_empty_or(ssh_bin_raw, "ssh");
    let args_trimmed = trim_str(args_raw);
    let args = if args_trimmed.unicode_len() == 0 {
        None
    } else {
        Some(shell_split(args_trimmed))
    };
    let host = not_empty_or(host_raw, "127.0.0.1");
    let pre_exit_cmd = resolve_pre_exit(pre_exit_cmd_raw);
    let pre_sleep = parse_gh_num(pre_sleep_raw);
    let pre_timeout = parse_gh_num(pre_timeout_raw);
    let run_trimmed = trim_str(run_raw);
    let run = run_trimmed.to_owned();
    let allow_run_failure = parse_gh_bool(allow_run_failure_raw, false);
    let post_trimmed = trim_str(post_run_raw);
    let post_run = if post_trimmed.unicode_len() == 0 {
        None
    } else {
        Some(post_trimmed.to_owned())
    };
    let allow_post_run_failure = parse_gh_bool(allow_post_run_failure_raw, true);
    InputConfig {
        ssh_bin,
        args,
        host,
        pre_exit_cmd,
        pre_sleep,
        pre_timeout,
        run,
        allow_run_failure,
        post_run,
        allow_post_run_failure,
    }
}

} // verus!
