//! Redaction of sensitive values in an argument list before it is logged.
use vstd::prelude::*;
use vstd::string::*;

use crate::config::strings_view;
use crate::text::{seq_starts_with, starts_with, str_eq};

verus! {

/// Flags whose value, given as the next argument, is redacted.
pub open spec fn is_sensitive_flag(a: Seq<char>) -> bool {
    ||| a == "--body"@
    ||| a == "--body-file"@
    ||| a == "--notes"@
    ||| a == "--notes-file"@
    ||| a == "--field"@
    ||| a == "-F"@
    ||| a == "--raw-field"@
    ||| a == "-f"@
    ||| a == "--header"@
    ||| a == "-H"@
    ||| a == "--jq"@
    ||| a == "--template"@
}

/// Long flags whose inline value (`--flag=value`) is redacted, in the order
/// in which they are tried.
pub open spec fn sensitive_long_flags() -> Seq<Seq<char>> {
    seq![
        "--body"@,
        "--body-file"@,
        "--notes"@,
        "--notes-file"@,
        "--field"@,
        "--raw-field"@,
        "--header"@,
        "--jq"@,
        "--template"@,
    ]
}

/// Short flags whose attached value (`-Fvalue`) is redacted.
pub open spec fn is_sensitive_short(c: char) -> bool {
    c == 'F' || c == 'f' || c == 'H'
}

/// `a` has the form `--flag=value` for the long flag at index `j`.
pub open spec fn has_inline_long(a: Seq<char>, j: int) -> bool {
    seq_starts_with(a, sensitive_long_flags()[j] + "="@)
}

/// The index of the first long flag from index `j` on whose inline form `a`
/// has, or -1.
pub open spec fn first_inline_long(a: Seq<char>, j: int) -> int
    decreases sensitive_long_flags().len() - j,
{
    if j < 0 || j >= sensitive_long_flags().len() {
        -1
    } else if has_inline_long(a, j) {
        j
    } else {
        first_inline_long(a, j + 1)
    }
}

/// `a` has the form `-Fvalue`, `-fvalue` or `-Hvalue` with a non-empty value.
pub open spec fn has_inline_short(a: Seq<char>) -> bool {
    &&& seq_starts_with(a, "-"@)
    &&& !seq_starts_with(a, "--"@)
    &&& a.len() > 2
    &&& is_sensitive_short(a[1])
}

/// What an argument that is not the value of a sensitive flag becomes:
/// `--flag=[REDACTED]`, `-F[REDACTED]`, or itself.
pub open spec fn redacted_token(a: Seq<char>) -> Seq<char> {
    let j = first_inline_long(a, 0);
    if j >= 0 {
        sensitive_long_flags()[j] + "=[REDACTED]"@
    } else if has_inline_short(a) {
        "-"@ + a.subrange(1, 2) + "[REDACTED]"@
    } else {
        a
    }
}

/// The redacted form of an argument list: a sensitive flag is kept and the
/// argument after it becomes `[REDACTED]`; every other argument becomes its
/// redacted token.
pub open spec fn redact_seq(argv: Seq<Seq<char>>) -> Seq<Seq<char>>
    decreases argv.len(),
{
    if argv.len() == 0 {
        Seq::empty()
    } else if is_sensitive_flag(argv[0]) {
        if argv.len() >= 2 {
            seq![argv[0], "[REDACTED]"@] + redact_seq(argv.skip(2))
        } else {
            seq![argv[0]]
        }
    } else {
        seq![redacted_token(argv[0])] + redact_seq(argv.skip(1))
    }
}

fn sensitive_flag(a: &str) -> (r: bool)
    ensures
        r == is_sensitive_flag(a@),
{
    str_eq(a, "--body") || str_eq(a, "--body-file") || str_eq(a, "--notes") || str_eq(
        a,
        "--notes-file",
    ) || str_eq(a, "--field") || str_eq(a, "-F") || str_eq(a, "--raw-field") || str_eq(a, "-f")
        || str_eq(a, "--header") || str_eq(a, "-H") || str_eq(a, "--jq") || str_eq(
        a,
        "--template",
    )
}

fn long_flag(j: usize) -> (f: &'static str)
    requires
        j < 9,
    ensures
        f@ == sensitive_long_flags()[j as int],
{
    match j {
        0 => "--body",
        1 => "--body-file",
        2 => "--notes",
        3 => "--notes-file",
        4 => "--field",
        5 => "--raw-field",
        6 => "--header",
        7 => "--jq",
        _ => "--template",
    }
}

/// The redacted token of one argument.
fn redact_token(arg: &str) -> (r: String)
    ensures
        r@ == redacted_token(arg@),
{
    let mut j: usize = 0;
    while j < 9
        invariant
            j <= 9,
            first_inline_long(arg@, 0) == first_inline_long(arg@, j as int),
        decreases 9 - j,
    {
        let flag = long_flag(j);
        let prefix = String::from_str(flag).concat("=");
        if starts_with(arg, prefix.as_str()) {
            return String::from_str(flag).concat("=[REDACTED]");
        }
        j = j + 1;
    }
    if arg.unicode_len() > 2 && starts_with(arg, "-") && !starts_with(arg, "--") {
        let c = arg.get_char(1);
        if c == 'F' || c == 'f' || c == 'H' {
            let value_char = arg.substring_char(1, 2);
            return String::from_str("-").concat(value_char).concat("[REDACTED]");
        }
    }
    String::from_str(arg)
}

/// Replaces the values of sensitive flags (`--body`, `-F`, `--header`, ...)
/// by `[REDACTED]`, in their separate (`--body x`), inline long
/// (`--body=x`) and attached short (`-Fx`) forms.
pub fn redact_argv(argv: &[String]) -> (r: Vec<String>)
    ensures
        strings_view(r@) == redact_seq(strings_view(argv@)),
{
    let ghost all = strings_view(argv@);
    let n = argv.len();
    let mut result: Vec<String> = Vec::new();
    let mut i: usize = 0;
    assert(all.skip(0) =~= all);
    assert(strings_view(result@) + redact_seq(all) =~= redact_seq(all));
    while i < n
        invariant
            n == argv@.len(),
            all == strings_view(argv@),
            i <= n,
            strings_view(result@) + redact_seq(all.skip(i as int)) == redact_seq(all),
        decreases n - i,
    {
        let arg = argv[i].as_str();
        let ghost rest = all.skip(i as int);
        let ghost before = strings_view(result@);
        assert(rest[0] == arg@);
        if sensitive_flag(arg) {
            result.push(argv[i].clone());
            i = i + 1;
            if i < n {
                result.push(String::from_str("[REDACTED]"));
                i = i + 1;
                assert(rest.skip(2) =~= all.skip(i as int));
                assert(strings_view(result@) =~= before + seq![rest[0], "[REDACTED]"@]);
            } else {
                assert(strings_view(result@) =~= before + seq![rest[0]]);
                assert(all.skip(i as int) =~= Seq::<Seq<char>>::empty());
            }
            assert(strings_view(result@) + redact_seq(all.skip(i as int)) =~= before + redact_seq(
                rest,
            ));
        } else {
            result.push(redact_token(arg));
            i = i + 1;
            assert(rest.skip(1) =~= all.skip(i as int));
            assert(strings_view(result@) =~= before + seq![redacted_token(rest[0])]);
            assert(strings_view(result@) + redact_seq(all.skip(i as int)) =~= before + redact_seq(
                rest,
            ));
        }
    }
    assert(all.skip(n as int) =~= Seq::<Seq<char>>::empty());
    assert(strings_view(result@) + Seq::<Seq<char>>::empty() =~= strings_view(result@));
    result
}

/// Redaction keeps the number of arguments.
pub proof fn law_redaction_keeps_length(argv: Seq<Seq<char>>)
    ensures
        redact_seq(argv).len() == argv.len(),
    decreases argv.len(),
{
    if argv.len() > 0 {
        if is_sensitive_flag(argv[0]) {
            if argv.len() >= 2 {
                law_redaction_keeps_length(argv.skip(2));
            }
        } else {
            law_redaction_keeps_length(argv.skip(1));
        }
    }
}

proof fn lemma_literals()
    ensures
        forall|j: int|
            0 <= j < sensitive_long_flags().len() ==> {
                let f = #[trigger] sensitive_long_flags()[j];
                &&& f.len() >= 2
                &&& f[0] == '-'
                &&& f[1] == '-'
                &&& forall|k: int| 0 <= k < f.len() ==> f[k] != '='
            },
        forall|a: Seq<char>| #[trigger]
            is_sensitive_flag(a) ==> forall|k: int| 0 <= k < a.len() ==> a[k] != '[',
        "=[REDACTED]"@.len() == 11,
        "=[REDACTED]"@[0] == '=',
        "=[REDACTED]"@[1] == '[',
        "[REDACTED]"@.len() == 10,
        "[REDACTED]"@[0] == '[',
        "="@ == seq!['='],
        "-"@ == seq!['-'],
        "--"@ == seq!['-', '-'],
{
    reveal_strlit("--body");
    reveal_strlit("--body-file");
    reveal_strlit("--notes");
    reveal_strlit("--notes-file");
    reveal_strlit("--field");
    reveal_strlit("-F");
    reveal_strlit("--raw-field");
    reveal_strlit("-f");
    reveal_strlit("--header");
    reveal_strlit("-H");
    reveal_strlit("--jq");
    reveal_strlit("--template");
    reveal_strlit("=[REDACTED]");
    reveal_strlit("[REDACTED]");
    reveal_strlit("=");
    reveal_strlit("-");
    reveal_strlit("--");
}

/// The redacted token of an argument is not a sensitive flag, and redacting
/// it again changes nothing.
proof fn lemma_token_stable(a: Seq<char>)
    requires
        !is_sensitive_flag(a),
    ensures
        !is_sensitive_flag(redacted_token(a)),
        redacted_token(redacted_token(a)) == redacted_token(a),
{
    lemma_literals();
    let flags = sensitive_long_flags();
    let j = first_inline_long(a, 0);
    let r = redacted_token(a);
    if j >= 0 {
        lemma_first_inline_long(a, 0);
        let f = flags[j];
        assert(r[f.len() + 1int] == '[');
        // Every long flag whose inline form `r` has is `f` itself.
        assert forall|k: int| 0 <= k < flags.len() && has_inline_long(r, k) implies flags[k] == f by {
            let g = flags[k];
            let ge = g + "="@;
            assert(r.subrange(0, ge.len() as int) == ge);
            assert(ge[g.len() as int] == '=');
            if g.len() < f.len() {
                assert(r.subrange(0, ge.len() as int)[g.len() as int] == ge[g.len() as int]);
                assert(r[g.len() as int] == f[g.len() as int]);
            } else if g.len() > f.len() {
                assert(r[f.len() as int] == '=');
                assert(r.subrange(0, ge.len() as int)[f.len() as int] == ge[f.len() as int]);
                assert(r[f.len() as int] == g[f.len() as int]);
            } else {
                assert(g =~= f) by {
                    assert forall|m: int| 0 <= m < g.len() implies g[m] == f[m] by {
                        assert(r.subrange(0, ge.len() as int)[m] == ge[m]);
                    }
                }
            }
        }
        assert(has_inline_long(r, j)) by {
            assert(r.subrange(0, f.len() + 1int) =~= f + "="@);
        }
        lemma_first_inline_long(r, 0);
    } else {
        lemma_first_inline_long(a, 0);
        if has_inline_short(a) {
            assert(r[2] == '[');
            assert(r[1] == a[1]);
            assert forall|k: int| 0 <= k < flags.len() implies !has_inline_long(r, k) by {
                if has_inline_long(r, k) {
                    assert(r[1] == (flags[k] + "="@)[1]);
                }
            }
            lemma_first_inline_long(r, 0);
            assert(r.subrange(0, 1) =~= "-"@);
            assert(r.subrange(0, 2) != "--"@);
            assert("-"@ + r.subrange(1, 2) + "[REDACTED]"@ =~= r);
        }
    }
}

proof fn lemma_first_inline_long(a: Seq<char>, j: int)
    requires
        0 <= j,
    ensures
        first_inline_long(a, j) >= 0 ==> j <= first_inline_long(a, j) < sensitive_long_flags().len()
            && has_inline_long(a, first_inline_long(a, j)),
        first_inline_long(a, j) < 0 ==> forall|k: int|
            j <= k < sensitive_long_flags().len() ==> !has_inline_long(a, k),
    decreases sensitive_long_flags().len() - j,
{
    if j < sensitive_long_flags().len() && !has_inline_long(a, j) {
        lemma_first_inline_long(a, j + 1);
    }
}

/// Redacting an already redacted argument list changes nothing.
pub proof fn law_redaction_idempotent(argv: Seq<Seq<char>>)
    ensures
        redact_seq(redact_seq(argv)) == redact_seq(argv),
    decreases argv.len(),
{
    let out = redact_seq(argv);
    lemma_literals();
    if argv.len() > 0 {
        if is_sensitive_flag(argv[0]) {
            if argv.len() >= 2 {
                law_redaction_idempotent(argv.skip(2));
                let rest = redact_seq(argv.skip(2));
                assert(out.skip(2) =~= rest);
                assert(out[0] == argv[0]);
                assert(redact_seq(out) =~= seq![argv[0], "[REDACTED]"@] + redact_seq(rest));
            } else {
                assert(out.skip(1) =~= Seq::<Seq<char>>::empty());
            }
        } else {
            law_redaction_idempotent(argv.skip(1));
            lemma_token_stable(argv[0]);
            let rest = redact_seq(argv.skip(1));
            assert(out.skip(1) =~= rest);
            assert(out[0] == redacted_token(argv[0]));
            assert(redact_seq(out) =~= seq![redacted_token(argv[0])] + redact_seq(rest));
        }
    }
}

/// Redaction splits at a sensitive flag: when no argument before it is a
/// sensitive flag, the arguments before it are redacted on their own, the
/// flag is kept, its value becomes `[REDACTED]` whatever it was, and the
/// arguments after the value are redacted on their own.
pub proof fn law_redaction_splits_at_sensitive_flag(
    before: Seq<Seq<char>>,
    flag: Seq<char>,
    value: Seq<char>,
    after: Seq<Seq<char>>,
)
    requires
        is_sensitive_flag(flag),
        forall|k: int| 0 <= k < before.len() ==> !is_sensitive_flag(#[trigger] before[k]),
    ensures
        redact_seq(before + seq![flag, value] + after) == redact_seq(before) + seq![
            flag,
            "[REDACTED]"@,
        ] + redact_seq(after),
    decreases before.len(),
{
    let argv = before + seq![flag, value] + after;
    if before.len() == 0 {
        assert(argv =~= seq![flag, value] + after);
        assert(argv.skip(2) =~= after);
        assert(redact_seq(before) =~= Seq::<Seq<char>>::empty());
        assert(redact_seq(before) + seq![flag, "[REDACTED]"@] + redact_seq(after) =~= seq![
            flag,
            "[REDACTED]"@,
        ] + redact_seq(after));
    } else {
        let rest = before.skip(1);
        assert forall|k: int| 0 <= k < rest.len() implies !is_sensitive_flag(#[trigger] rest[k]) by {
            assert(rest[k] == before[k + 1]);
        }
        law_redaction_splits_at_sensitive_flag(rest, flag, value, after);
        assert(argv[0] == before[0]);
        assert(!is_sensitive_flag(before[0]));
        assert(argv.skip(1) =~= rest + seq![flag, value] + after);
        assert(redact_seq(argv) =~= seq![redacted_token(before[0])] + redact_seq(argv.skip(1)));
        assert(redact_seq(before) =~= seq![redacted_token(before[0])] + redact_seq(rest));
        assert(redact_seq(argv) =~= redact_seq(before) + seq![flag, "[REDACTED]"@] + redact_seq(
            after,
        ));
    }
}

/// The value of a sensitive flag never shows in the redacted form: two
/// argument lists that differ only in that value redact alike.
pub proof fn law_redaction_ignores_sensitive_values(
    before: Seq<Seq<char>>,
    flag: Seq<char>,
    v1: Seq<char>,
    v2: Seq<char>,
    after: Seq<Seq<char>>,
)
    requires
        is_sensitive_flag(flag),
        forall|k: int| 0 <= k < before.len() ==> !is_sensitive_flag(#[trigger] before[k]),
    ensures
        redact_seq(before + seq![flag, v1] + after) == redact_seq(before + seq![flag, v2] + after),
{
    law_redaction_splits_at_sensitive_flag(before, flag, v1, after);
    law_redaction_splits_at_sensitive_flag(before, flag, v2, after);
}

/// The sensitive flags are `--body`, `--body-file`, `--notes`,
/// `--notes-file`, `--field`, `-F`, `--raw-field`, `-f`, `--header`, `-H`,
/// `--jq` and `--template`: whatever follows one of them is logged as
/// `[REDACTED]`, and the flag itself is kept.
pub proof fn law_sensitive_flag_values_are_redacted(flag: Seq<char>, value: Seq<char>, rest: Seq<Seq<char>>)
    requires
        seq![
        "--body"@,
        "--body-file"@,
        "--notes"@,
        "--notes-file"@,
        "--field"@,
        "-F"@,
        "--raw-field"@,
        "-f"@,
        "--header"@,
        "-H"@,
        "--jq"@,
        "--template"@,
    ].contains(flag),
    ensures
        redact_seq(seq![flag, value] + rest) == seq![flag, "[REDACTED]"@] + redact_seq(rest),
        redact_seq(seq![flag, value]) == seq![flag, "[REDACTED]"@],
{
    assert(is_sensitive_flag(flag));
    law_redaction_splits_at_sensitive_flag(Seq::empty(), flag, value, rest);
    law_redaction_splits_at_sensitive_flag(Seq::empty(), flag, value, Seq::empty());
    assert(Seq::<Seq<char>>::empty() + seq![flag, value] + rest =~= seq![flag, value] + rest);
    assert(Seq::<Seq<char>>::empty() + seq![flag, value] + Seq::<Seq<char>>::empty() =~= seq![flag, value]);
    assert(redact_seq(Seq::<Seq<char>>::empty()) =~= Seq::<Seq<char>>::empty());
    assert(Seq::<Seq<char>>::empty() + seq![flag, "[REDACTED]"@] + redact_seq(rest) =~= seq![flag, "[REDACTED]"@] + redact_seq(rest));
    assert(Seq::<Seq<char>>::empty() + seq![flag, "[REDACTED]"@] + Seq::<Seq<char>>::empty() =~= seq![flag, "[REDACTED]"@]);
}

} // verus!
