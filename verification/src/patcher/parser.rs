//! Parsing of a Patcherfile into instructions.
//!
//! A Patcherfile is read line by line. Each line is trimmed; blank lines and
//! lines that start with `#` are skipped. The first word names the
//! instruction; `$VAR` references in the rest of the line are replaced by the
//! values of environment variables (undefined ones by nothing) before the
//! arguments are split. Arguments are separated by spaces; double quotes group
//! words into one argument and are themselves dropped.
use crate::patcher::instruction::{Instruction, InstructionModel};
use crate::patcher::{strings_view, PatchError, PatchErrorModel};
use crate::text::{
    append_chars, chars_eq, chars_of, copy_chars, is_alphanumeric, string_of, trim, trim_chars,
    unicode_alphanumeric, ascii_alphanumeric,
};
use vstd::prelude::*;

verus! {

/// A snapshot of environment variables, as name and value pairs. When a name
/// occurs more than once, the pair added last counts.
pub struct EnvVars {
    vars: Vec<(String, String)>,
}

/// The value that `env` gives `name`, if any: the last pair with that name.
pub open spec fn env_lookup(env: Seq<(Seq<char>, Seq<char>)>, name: Seq<char>) -> Option<Seq<char>>
    decreases env.len(),
{
    if env.len() == 0 {
        None
    } else if env.last().0 == name {
        Some(env.last().1)
    } else {
        env_lookup(env.drop_last(), name)
    }
}

/// The text that `$name` expands to: the variable's value, or nothing when it
/// is undefined.
pub open spec fn env_value(env: Seq<(Seq<char>, Seq<char>)>, name: Seq<char>) -> Seq<char> {
    match env_lookup(env, name) {
        Some(v) => v,
        None => seq![],
    }
}

impl View for EnvVars {
    type V = Seq<(Seq<char>, Seq<char>)>;

    closed spec fn view(&self) -> Seq<(Seq<char>, Seq<char>)> {
        self.vars@.map_values(|p: (String, String)| (p.0@, p.1@))
    }
}

impl EnvVars {
    /// An environment in which no variable is defined.
    pub fn new() -> (r: Self)
        ensures
            r@ == Seq::<(Seq<char>, Seq<char>)>::empty(),
    {
        let r = EnvVars { vars: Vec::new() };
        assert(r@ =~= Seq::<(Seq<char>, Seq<char>)>::empty());
        r
    }

    /// Defines `name` as `value`, replacing an earlier definition.
    pub fn set(&mut self, name: String, value: String)
        ensures
            final(self)@ == old(self)@.push((name@, value@)),
    {
        self.vars.push((name, value));
        assert(self@ =~= old(self)@.push((name@, value@)));
    }

    /// The value of `name`, or nothing when it is undefined.
    pub fn value_of(&self, name: &[char]) -> (r: Vec<char>)
        ensures
            r@ == env_value(self@, name@),
    {
        let mut k = self.vars.len();
        assert(self@.take(k as int) =~= self@);
        while k > 0
            invariant
                k <= self.vars@.len(),
                self@.len() == self.vars@.len(),
                env_lookup(self@, name@) == env_lookup(self@.take(k as int), name@),
            decreases k,
        {
            let key = chars_of(self.vars[k - 1].0.as_str());
            let ghost t = self@.take(k as int);
            assert(t.last() == self@[k - 1]);
            assert(t.drop_last() =~= self@.take(k - 1));
            if chars_eq(key.as_slice(), name) {
                return chars_of(self.vars[k - 1].1.as_str());
            }
            k = k - 1;
        }
        assert(self@.take(0) =~= Seq::<(Seq<char>, Seq<char>)>::empty());
        Vec::new()
    }
}

/// Characters that may make up a variable name: the alphanumeric ones
/// (`char::is_alphanumeric`) and `_`. Among ASCII characters, these are the
/// letters, the digits and `_`.
pub open spec fn is_ident_char(c: char) -> bool {
    if (c as u32) < 128 {
        ascii_alphanumeric(c) || c == '_'
    } else {
        unicode_alphanumeric(c)
    }
}

/// How many characters at the start of `s` may make up a variable name.
pub open spec fn ident_len(s: Seq<char>) -> nat
    decreases s.len(),
{
    if s.len() > 0 && is_ident_char(s[0]) {
        1 + ident_len(s.drop_first())
    } else {
        0
    }
}

/// A variable name is never longer than the text it starts.
pub proof fn lemma_ident_len_bound(s: Seq<char>)
    ensures
        ident_len(s) <= s.len(),
    decreases s.len(),
{
    if s.len() > 0 && is_ident_char(s[0]) {
        lemma_ident_len_bound(s.drop_first());
    }
}

/// `s` with each `$name` replaced by the value of the variable `name` in
/// `env` (by nothing when it is undefined); a `$` that no name follows stays.
pub open spec fn interpolated(s: Seq<char>, env: Seq<(Seq<char>, Seq<char>)>) -> Seq<char>
    decreases s.len(),
{
    if s.len() == 0 {
        seq![]
    } else if s[0] == '$' {
        let k = ident_len(s.drop_first());
        if k == 0 {
            seq!['$'] + interpolated(s.drop_first(), env)
        } else {
            proof {
                lemma_ident_len_bound(s.drop_first());
            }
            env_value(env, s.subrange(1, 1 + k as int)) + interpolated(s.skip(1 + k as int), env)
        }
    } else {
        seq![s[0]] + interpolated(s.drop_first(), env)
    }
}

/// A name made of name characters is read whole, up to the first character
/// that cannot continue it.
proof fn lemma_ident_len_of_name(name: Seq<char>, rest: Seq<char>)
    requires
        forall|i: int| 0 <= i < name.len() ==> is_ident_char(#[trigger] name[i]),
        rest.len() == 0 || !is_ident_char(rest[0]),
    ensures
        ident_len(name + rest) == name.len(),
    decreases name.len(),
{
    if name.len() == 0 {
        assert(name + rest =~= rest);
    } else {
        assert((name + rest)[0] == name[0]);
        assert((name + rest).drop_first() =~= name.drop_first() + rest);
        assert forall|i: int| 0 <= i < name.drop_first().len() implies is_ident_char(
            #[trigger] name.drop_first()[i],
        ) by {
            assert(name.drop_first()[i] == name[i + 1]);
        }
        lemma_ident_len_of_name(name.drop_first(), rest);
    }
}

/// `$NAME` is replaced by the value of the variable `NAME` (its last
/// definition), and by nothing when it is undefined; the text after the
/// name is expanded in turn.
pub proof fn lemma_variable_expansion(name: Seq<char>, rest: Seq<char>, env: Seq<(Seq<char>, Seq<char>)>)
    requires
        name.len() > 0,
        forall|i: int| 0 <= i < name.len() ==> is_ident_char(#[trigger] name[i]),
        rest.len() == 0 || !is_ident_char(rest[0]),
    ensures
        interpolated(seq!['$'] + name + rest, env) == env_value(env, name) + interpolated(rest, env),
        env_lookup(env, name) is None ==> interpolated(seq!['$'] + name + rest, env) == interpolated(
            rest,
            env,
        ),
{
    let s = seq!['$'] + name + rest;
    assert(s.drop_first() =~= name + rest);
    lemma_ident_len_of_name(name, rest);
    let k = name.len() as int;
    assert(s.subrange(1, 1 + k) =~= name);
    assert(s.skip(1 + k) =~= rest);
    if env_lookup(env, name) is None {
        assert(env_value(env, name) + interpolated(rest, env) =~= interpolated(rest, env));
    }
}

fn is_ident(c: char) -> (r: bool)
    ensures
        r == is_ident_char(c),
        r == (unicode_alphanumeric(c) || c == '_'),
        (c as u32) < 128 ==> (r <==> (ascii_alphanumeric(c) || c == '_')),
{
    c == '_' || is_alphanumeric(c)
}

/// An ASCII character that is not a letter, a digit or `_` (a slash, a
/// dot, a dash, a quote, a space, ...) ends a variable name: `$name`
/// followed by it is replaced by the variable's value, and the character
/// and what follows are kept, expanded in turn. A name here is made of
/// ASCII letters, digits and `_`.
pub proof fn lemma_name_ends_at_ascii_punctuation(
    name: Seq<char>,
    c: char,
    rest: Seq<char>,
    env: Seq<(Seq<char>, Seq<char>)>,
)
    requires
        name.len() > 0,
        forall|i: int|
            0 <= i < name.len() ==> (#[trigger] name[i] as u32) < 128 && (ascii_alphanumeric(name[i])
                || name[i] == '_'),
        (c as u32) < 128,
        !ascii_alphanumeric(c),
        c != '_',
    ensures
        interpolated(seq!['$'] + name + seq![c] + rest, env) == env_value(env, name) + interpolated(
            seq![c] + rest,
            env,
        ),
        c != '$' ==> interpolated(seq!['$'] + name + seq![c] + rest, env) == env_value(env, name) + seq![c]
            + interpolated(rest, env),
{
    assert forall|i: int| 0 <= i < name.len() implies is_ident_char(#[trigger] name[i]) by {}
    let r2 = seq![c] + rest;
    assert(r2[0] == c);
    lemma_variable_expansion(name, r2, env);
    assert(seq!['$'] + name + r2 =~= seq!['$'] + name + seq![c] + rest);
    if c != '$' {
        assert(r2.drop_first() =~= rest);
        assert(env_value(env, name) + (seq![c] + interpolated(rest, env)) =~= env_value(env, name) + seq![c]
            + interpolated(rest, env));
    }
}

/// Replaces `$VAR` references by the values of the variables in `env`.
pub fn interpolate_env(input: &[char], env: &EnvVars) -> (r: Vec<char>)
    ensures
        r@ == interpolated(input@, env@),
{
    let n = input.len();
    let ghost s = input@;
    let mut out: Vec<char> = Vec::new();
    let mut i: usize = 0;
    assert(s.skip(0) =~= s);
    assert(out@ + interpolated(s, env@) =~= interpolated(s, env@));
    while i < n
        invariant
            n == s.len(),
            s == input@,
            i <= n,
            out@ + interpolated(s.skip(i as int), env@) == interpolated(s, env@),
        decreases n - i,
    {
        let ghost t = s.skip(i as int);
        assert(t.drop_first() =~= s.skip(i + 1));
        if input[i] == '$' {
            let mut j: usize = i + 1;
            assert(s.skip(j as int) =~= s.skip(i + 1));
            while j < n && is_ident(input[j])
                invariant
                    n == s.len(),
                    s == input@,
                    i + 1 <= j <= n,
                    ident_len(s.skip(i + 1)) == (j - (i + 1)) + ident_len(s.skip(j as int)),
                decreases n - j,
            {
                assert(s.skip(j as int).drop_first() =~= s.skip(j + 1));
                j = j + 1;
            }
            assert(ident_len(s.skip(j as int)) == 0) by {
                if j < n {
                    assert(s.skip(j as int)[0] == s[j as int]);
                }
            }
            if j == i + 1 {
                out.push('$');
                i = i + 1;
                assert(out@ + interpolated(s.skip(i as int), env@) =~= interpolated(s, env@));
            } else {
                let mut name: Vec<char> = Vec::new();
                let mut k: usize = i + 1;
                while k < j
                    invariant
                        i + 1 <= k <= j <= n,
                        n == s.len(),
                        s == input@,
                        name@ == s.subrange(i + 1, k as int),
                    decreases j - k,
                {
                    name.push(input[k]);
                    k = k + 1;
                    assert(name@ =~= s.subrange(i + 1, k as int));
                }
                let value = env.value_of(name.as_slice());
                append_chars(&mut out, value.as_slice());
                assert(t.subrange(1, 1 + (j - (i + 1))) =~= s.subrange(i + 1, j as int));
                assert(t.skip(1 + (j - (i + 1))) =~= s.skip(j as int));
                i = j;
                assert(out@ + interpolated(s.skip(i as int), env@) =~= interpolated(s, env@));
            }
        } else {
            out.push(input[i]);
            i = i + 1;
            assert(out@ + interpolated(s.skip(i as int), env@) =~= interpolated(s, env@));
        }
    }
    assert(interpolated(s.skip(n as int), env@) =~= Seq::<char>::empty());
    assert(out@ =~= interpolated(s, env@));
    out
}

/// The arguments that `s` splits into, given the argument being built (`cur`)
/// and whether a double quote is open (`inq`).
pub open spec fn scan_args(s: Seq<char>, cur: Seq<char>, inq: bool) -> Seq<Seq<char>>
    decreases s.len(),
{
    if s.len() == 0 {
        if cur.len() > 0 {
            seq![cur]
        } else {
            seq![]
        }
    } else if s[0] == '"' {
        scan_args(s.drop_first(), cur, !inq)
    } else if s[0] == ' ' && !inq {
        if cur.len() > 0 {
            seq![cur] + scan_args(s.drop_first(), seq![], inq)
        } else {
            scan_args(s.drop_first(), seq![], inq)
        }
    } else {
        scan_args(s.drop_first(), cur.push(s[0]), inq)
    }
}

/// The arguments of `s`: split at spaces outside double quotes, quotes
/// dropped, empty arguments skipped.
pub open spec fn arguments(s: Seq<char>) -> Seq<Seq<char>> {
    scan_args(s, seq![], false)
}

proof fn lemma_scan_args_clean(s: Seq<char>, cur: Seq<char>, inq: bool)
    requires
        !cur.contains('"'),
    ensures
        forall|i: int|
            0 <= i < scan_args(s, cur, inq).len() ==> (#[trigger] scan_args(s, cur, inq)[i]).len() > 0
                && !scan_args(s, cur, inq)[i].contains('"'),
    decreases s.len(),
{
    if s.len() == 0 {
        if cur.len() > 0 {
            assert(seq![cur][0] == cur);
        }
    } else if s[0] == '"' {
        lemma_scan_args_clean(s.drop_first(), cur, !inq);
        assert(scan_args(s, cur, inq) == scan_args(s.drop_first(), cur, !inq));
    } else if s[0] == ' ' && !inq {
        lemma_scan_args_clean(s.drop_first(), seq![], inq);
        assert(cur.len() == 0 ==> scan_args(s, cur, inq) == scan_args(s.drop_first(), seq![], inq));
        assert(!Seq::<char>::empty().contains('"'));
        if cur.len() > 0 {
            let rest = scan_args(s.drop_first(), seq![], inq);
            assert forall|i: int| 0 <= i < (seq![cur] + rest).len() implies (#[trigger] (seq![cur] + rest)[i]).len()
                > 0 && !(seq![cur] + rest)[i].contains('"') by {
                if i > 0 {
                    assert((seq![cur] + rest)[i] == rest[i - 1]);
                }
            }
        }
    } else {
        let c2 = cur.push(s[0]);
        assert(!c2.contains('"')) by {
            if c2.contains('"') {
                let k = choose|k: int| 0 <= k < c2.len() && c2[k] == '"';
                if k < cur.len() {
                    assert(cur[k] == '"');
                }
            }
        }
        lemma_scan_args_clean(s.drop_first(), c2, inq);
        assert(scan_args(s, cur, inq) == scan_args(s.drop_first(), c2, inq));
    }
}

/// Arguments are never empty and never hold a double quote: quotes only
/// group, and empty pieces are dropped.
pub proof fn lemma_arguments_clean(s: Seq<char>)
    ensures
        forall|i: int|
            0 <= i < arguments(s).len() ==> (#[trigger] arguments(s)[i]).len() > 0 && !arguments(s)[i].contains(
                '"',
            ),
{
    lemma_scan_args_clean(s, seq![], false);
}

/// The characters of `s` that end up in arguments, given whether a double
/// quote is open: every character but double quotes and the spaces outside
/// them.
pub open spec fn kept_chars(s: Seq<char>, inq: bool) -> Seq<char>
    decreases s.len(),
{
    if s.len() == 0 {
        seq![]
    } else if s[0] == '"' {
        kept_chars(s.drop_first(), !inq)
    } else if s[0] == ' ' && !inq {
        kept_chars(s.drop_first(), inq)
    } else {
        seq![s[0]] + kept_chars(s.drop_first(), inq)
    }
}

proof fn lemma_flatten_prepend(x: Seq<char>, rest: Seq<Seq<char>>)
    ensures
        (seq![x] + rest).flatten() == x + rest.flatten(),
{
    assert((seq![x] + rest).drop_first() =~= rest);
    assert((seq![x] + rest).first() == x);
}

proof fn lemma_scan_args_flatten(s: Seq<char>, cur: Seq<char>, inq: bool)
    ensures
        scan_args(s, cur, inq).flatten() == cur + kept_chars(s, inq),
    decreases s.len(),
{
    if s.len() == 0 {
        if cur.len() > 0 {
            lemma_flatten_prepend(cur, seq![]);
        }
        assert(cur + Seq::<char>::empty() =~= cur);
    } else if s[0] == '"' {
        lemma_scan_args_flatten(s.drop_first(), cur, !inq);
    } else if s[0] == ' ' && !inq {
        lemma_scan_args_flatten(s.drop_first(), seq![], inq);
        assert(Seq::<char>::empty() + kept_chars(s.drop_first(), inq) =~= kept_chars(s.drop_first(), inq));
        if cur.len() > 0 {
            lemma_flatten_prepend(cur, scan_args(s.drop_first(), seq![], inq));
        } else {
            assert(cur + kept_chars(s, inq) =~= kept_chars(s, inq));
        }
    } else {
        lemma_scan_args_flatten(s.drop_first(), cur.push(s[0]), inq);
        assert(cur.push(s[0]) + kept_chars(s.drop_first(), inq) =~= cur + (seq![s[0]] + kept_chars(
            s.drop_first(),
            inq,
        )));
    }
}

/// The pieces of `s` between spaces, empty ones included (`str::split(' ')`).
pub open spec fn split_at_spaces(s: Seq<char>) -> Seq<Seq<char>>
    decreases s.len(),
{
    if s.len() == 0 {
        seq![seq![]]
    } else if s[0] == ' ' {
        seq![seq![]] + split_at_spaces(s.drop_first())
    } else {
        let rest = split_at_spaces(s.drop_first());
        rest.update(0, seq![s[0]] + rest[0])
    }
}

/// Whether a piece is not empty.
pub open spec fn non_empty(w: Seq<char>) -> bool {
    w.len() > 0
}

proof fn lemma_split_at_spaces_len(s: Seq<char>)
    ensures
        split_at_spaces(s).len() > 0,
    decreases s.len(),
{
    if s.len() > 0 {
        lemma_split_at_spaces_len(s.drop_first());
    }
}

proof fn lemma_filter_one(x: Seq<char>)
    ensures
        seq![x].filter(|w: Seq<char>| non_empty(w)) == if x.len() > 0 {
            seq![x]
        } else {
            Seq::<Seq<char>>::empty()
        },
{
    reveal_with_fuel(Seq::filter, 2);
    assert(seq![x].drop_last() =~= Seq::<Seq<char>>::empty());
    assert(seq![x].last() == x);
    assert(Seq::<Seq<char>>::empty().push(x) =~= seq![x]);
}

/// Outside quotes, with `cur` being built, the arguments of a quote-free text
/// are its pieces between spaces, `cur` joined to the first, empty ones
/// dropped.
proof fn lemma_scan_args_split(s: Seq<char>, cur: Seq<char>)
    requires
        !s.contains('"'),
    ensures
        scan_args(s, cur, false) == split_at_spaces(s).update(0, cur + split_at_spaces(s)[0]).filter(
            |w: Seq<char>| non_empty(w),
        ),
    decreases s.len(),
{
    let p = |w: Seq<char>| non_empty(w);
    lemma_split_at_spaces_len(s);
    if s.len() == 0 {
        assert(split_at_spaces(s).update(0, cur + split_at_spaces(s)[0]) =~= seq![cur]);
        lemma_filter_one(cur);
    } else {
        let t = s.drop_first();
        assert(s[0] != '"') by {
            assert(s.contains(s[0]));
        }
        assert(!t.contains('"')) by {
            if t.contains('"') {
                let i = choose|i: int| 0 <= i < t.len() && t[i] == '"';
                assert(s[i + 1] == '"');
            }
        }
        lemma_split_at_spaces_len(t);
        let rest = split_at_spaces(t);
        if s[0] == ' ' {
            lemma_scan_args_split(t, seq![]);
            assert(rest.update(0, Seq::<char>::empty() + rest[0]) =~= rest);
            let whole = split_at_spaces(s).update(0, cur + split_at_spaces(s)[0]);
            assert(whole =~= seq![cur] + rest);
            Seq::filter_distributes_over_add(seq![cur], rest, p);
            lemma_filter_one(cur);
            if cur.len() == 0 {
                assert(Seq::<Seq<char>>::empty() + rest.filter(p) =~= rest.filter(p));
            }
        } else {
            lemma_scan_args_split(t, cur.push(s[0]));
            let whole = split_at_spaces(s).update(0, cur + split_at_spaces(s)[0]);
            assert(split_at_spaces(s) == rest.update(0, seq![s[0]] + rest[0]));
            assert(split_at_spaces(s)[0] == seq![s[0]] + rest[0]);
            assert(cur + (seq![s[0]] + rest[0]) =~= cur.push(s[0]) + rest[0]);
            assert(whole =~= rest.update(0, cur.push(s[0]) + rest[0]));
        }
    }
}

/// The arguments put back together give the text without its double quotes
/// and without the spaces outside them; and a text without double quotes
/// splits into its non-empty pieces between spaces, in order.
pub proof fn lemma_arguments_rejoin(s: Seq<char>)
    ensures
        arguments(s).flatten() == kept_chars(s, false),
        !s.contains('"') ==> arguments(s) == split_at_spaces(s).filter(|w: Seq<char>| non_empty(w)),
{
    lemma_scan_args_flatten(s, seq![], false);
    assert(Seq::<char>::empty() + kept_chars(s, false) =~= kept_chars(s, false));
    if !s.contains('"') {
        lemma_scan_args_split(s, seq![]);
        lemma_split_at_spaces_len(s);
        let l = split_at_spaces(s);
        assert(l.update(0, Seq::<char>::empty() + l[0]) =~= l);
    }
}

/// Splits the text after an instruction name into its arguments.
pub fn extract_arguments(input: &[char]) -> (r: Vec<String>)
    ensures
        strings_view(r@) == arguments(input@),
{
    let n = input.len();
    let ghost s = input@;
    let mut args: Vec<String> = Vec::new();
    let mut current: Vec<char> = Vec::new();
    let mut in_quotes = false;
    let mut i: usize = 0;
    assert(s.skip(0) =~= s);
    assert(strings_view(args@) + arguments(s) =~= arguments(s));
    while i < n
        invariant
            n == s.len(),
            s == input@,
            i <= n,
            strings_view(args@) + scan_args(s.skip(i as int), current@, in_quotes) == arguments(
                s,
            ),
        decreases n - i,
    {
        let c = input[i];
        let ghost t = s.skip(i as int);
        assert(t.drop_first() =~= s.skip(i + 1));
        assert(t[0] == c);
        if c == '"' {
            in_quotes = !in_quotes;
        } else if c == ' ' && !in_quotes {
            if current.len() > 0 {
                let ghost before = strings_view(args@);
                let ghost cur_v = current@;
                let arg = string_of(current.as_slice());
                args.push(arg);
                assert(strings_view(args@) =~= before.push(cur_v));
                current = Vec::new();
                assert(current@ =~= Seq::<char>::empty());
                assert(strings_view(args@) + scan_args(s.skip(i + 1), current@, in_quotes)
                    =~= before + (seq![cur_v] + scan_args(s.skip(i + 1), seq![], in_quotes)));
            } else {
                current = Vec::new();
                assert(current@ =~= Seq::<char>::empty());
            }
        } else {
            current.push(c);
        }
        i = i + 1;
    }
    assert(s.skip(n as int) =~= Seq::<char>::empty());
    if current.len() > 0 {
        let ghost before = strings_view(args@);
        let arg = string_of(current.as_slice());
        args.push(arg);
        assert(strings_view(args@) =~= before.push(current@));
    }
    assert(strings_view(args@) =~= arguments(s));
    args
}

/// Whether an exec result agrees with a model result.
pub open spec fn agrees(r: Result<Instruction, PatchError>, m: Result<InstructionModel, PatchErrorModel>) -> bool {
    match r {
        Ok(i) => m == Ok::<InstructionModel, PatchErrorModel>(i@),
        Err(e) => m == Err::<InstructionModel, PatchErrorModel>(e@),
    }
}

/// `FROM <source_image>`.
pub open spec fn from_model(a: Seq<Seq<char>>) -> Result<InstructionModel, PatchErrorModel> {
    if a.len() == 0 {
        Err(PatchErrorModel::MissingArgument("FROM"@))
    } else if a.len() == 1 {
        Ok(InstructionModel::From { source_image: a[0] })
    } else {
        Err(PatchErrorModel::InvalidArguments("FROM"@, a))
    }
}

/// `SHELL <command>`: the rest of the line, trimmed.
pub open spec fn shell_model(rest: Seq<char>) -> Result<InstructionModel, PatchErrorModel> {
    if trim(rest).len() == 0 {
        Err(PatchErrorModel::MissingArgument("SHELL"@))
    } else {
        Ok(InstructionModel::Shell { command: trim(rest) })
    }
}

/// `EXEC <program> <args>...`.
pub open spec fn exec_model(a: Seq<Seq<char>>) -> Result<InstructionModel, PatchErrorModel> {
    if a.len() == 0 {
        Err(PatchErrorModel::MissingArgument("EXEC"@))
    } else {
        Ok(InstructionModel::Exec { program: a[0], args: a.skip(1) })
    }
}

/// `ADD FILE <fat_path> <host_file>`.
pub open spec fn add_model(a: Seq<Seq<char>>) -> Result<InstructionModel, PatchErrorModel> {
    if a.len() == 3 && a[0] == "FILE"@ {
        Ok(InstructionModel::AddFile { fat_path: a[1], host_file: a[2] })
    } else {
        Err(PatchErrorModel::InvalidArguments("ADD"@, a))
    }
}

/// `APPEND FILE <fat_path> <host_file>` or `APPEND CMDLINE <text>`.
pub open spec fn append_model(a: Seq<Seq<char>>) -> Result<InstructionModel, PatchErrorModel> {
    if a.len() == 3 && a[0] == "FILE"@ {
        Ok(InstructionModel::AppendFile { fat_path: a[1], host_file: a[2] })
    } else if a.len() == 2 && a[0] == "CMDLINE"@ {
        Ok(InstructionModel::AppendCmdline { append_conf: a[1] })
    } else {
        Err(PatchErrorModel::InvalidArguments("APPEND"@, a))
    }
}

/// `SAVE <output_image>`; further arguments are ignored.
pub open spec fn save_model(a: Seq<Seq<char>>) -> Result<InstructionModel, PatchErrorModel> {
    if a.len() == 0 {
        Err(PatchErrorModel::MissingArgument("SAVE"@))
    } else {
        Ok(InstructionModel::Save { output_image: a[0] })
    }
}

fn word(w: &str) -> (r: String)
    ensures
        r@ == w@,
{
    string_of(chars_of(w).as_slice())
}

fn is_word(s: &String, w: &str) -> (r: bool)
    ensures
        r == (s@ == w@),
{
    let a = chars_of(s.as_str());
    let b = chars_of(w);
    chars_eq(a.as_slice(), b.as_slice())
}

fn parse_from(args: Vec<String>) -> (r: Result<Instruction, PatchError>)
    ensures
        agrees(r, from_model(strings_view(args@))),
{
    if args.len() == 0 {
        Err(PatchError::MissingArgument(word("FROM")))
    } else if args.len() == 1 {
        Ok(Instruction::From { source_image: args[0].clone() })
    } else {
        Err(PatchError::InvalidArguments(word("FROM"), args))
    }
}

fn parse_shell(command: &[char]) -> (r: Result<Instruction, PatchError>)
    ensures
        agrees(r, shell_model(command@)),
{
    let command = trim_chars(command);
    if command.len() == 0 {
        Err(PatchError::MissingArgument(word("SHELL")))
    } else {
        Ok(Instruction::Shell { command: string_of(command.as_slice()) })
    }
}

fn parse_exec(args: Vec<String>) -> (r: Result<Instruction, PatchError>)
    ensures
        agrees(r, exec_model(strings_view(args@))),
{
    if args.len() == 0 {
        return Err(PatchError::MissingArgument(word("EXEC")));
    }
    let mut rest: Vec<String> = Vec::new();
    let mut k: usize = 1;
    while k < args.len()
        invariant
            1 <= k <= args@.len(),
            strings_view(rest@) == strings_view(args@).subrange(1, k as int),
        decreases args@.len() - k,
    {
        let ghost before = strings_view(rest@);
        rest.push(args[k].clone());
        assert(strings_view(rest@) =~= before.push(args@[k as int]@));
        k = k + 1;
        assert(strings_view(rest@) =~= strings_view(args@).subrange(1, k as int));
    }
    assert(strings_view(rest@) =~= strings_view(args@).skip(1));
    Ok(Instruction::Exec { program: args[0].clone(), args: rest })
}

fn parse_add(args: Vec<String>) -> (r: Result<Instruction, PatchError>)
    ensures
        agrees(r, add_model(strings_view(args@))),
{
    if args.len() == 3 && is_word(&args[0], "FILE") {
        Ok(Instruction::AddFile { fat_path: args[1].clone(), host_file: args[2].clone() })
    } else {
        Err(PatchError::InvalidArguments(word("ADD"), args))
    }
}

fn parse_append(args: Vec<String>) -> (r: Result<Instruction, PatchError>)
    ensures
        agrees(r, append_model(strings_view(args@))),
{
    if args.len() == 3 && is_word(&args[0], "FILE") {
        Ok(Instruction::AppendFile { fat_path: args[1].clone(), host_file: args[2].clone() })
    } else if args.len() == 2 && is_word(&args[0], "CMDLINE") {
        Ok(Instruction::AppendCmdline { append_conf: args[1].clone() })
    } else {
        Err(PatchError::InvalidArguments(word("APPEND"), args))
    }
}

fn parse_save(args: Vec<String>) -> (r: Result<Instruction, PatchError>)
    ensures
        agrees(r, save_model(strings_view(args@))),
{
    if args.len() == 0 {
        Err(PatchError::MissingArgument(word("SAVE")))
    } else {
        Ok(Instruction::Save { output_image: args[0].clone() })
    }
}

/// How many characters come before the first space of `s`.
pub open spec fn cmd_len(s: Seq<char>) -> nat
    decreases s.len(),
{
    if s.len() > 0 && s[0] != ' ' {
        1 + cmd_len(s.drop_first())
    } else {
        0
    }
}

/// The instruction name of a line: the text before its first space.
pub open spec fn line_command(line: Seq<char>) -> Seq<char> {
    line.take(cmd_len(line) as int)
}

/// The rest of a line: the text after its first space (nothing when there is
/// no space).
pub open spec fn line_rest(line: Seq<char>) -> Seq<char> {
    if cmd_len(line) < line.len() {
        line.skip(cmd_len(line) as int + 1)
    } else {
        seq![]
    }
}

/// The instruction that a trimmed, non-comment line stands for. Variables are
/// expanded in the rest of the line, not in the instruction name.
pub open spec fn line_model(line: Seq<char>, env: Seq<(Seq<char>, Seq<char>)>) -> Result<
    InstructionModel,
    PatchErrorModel,
> {
    let cmd = line_command(line);
    let rest = interpolated(line_rest(line), env);
    if cmd == "FROM"@ {
        from_model(arguments(rest))
    } else if cmd == "SHELL"@ {
        shell_model(rest)
    } else if cmd == "EXEC"@ {
        exec_model(arguments(rest))
    } else if cmd == "ADD"@ {
        add_model(arguments(rest))
    } else if cmd == "APPEND"@ {
        append_model(arguments(rest))
    } else if cmd == "SAVE"@ {
        save_model(arguments(rest))
    } else {
        Err(PatchErrorModel::UnknownInstruction(cmd))
    }
}

fn parse_line(line: &[char], env: &EnvVars) -> (r: Result<Instruction, PatchError>)
    ensures
        agrees(r, line_model(line@, env@)),
{
    let n = line.len();
    let mut k: usize = 0;
    assert(line@.skip(0) =~= line@);
    while k < n && line[k] != ' '
        invariant
            n == line@.len(),
            k <= n,
            cmd_len(line@) == k + cmd_len(line@.skip(k as int)),
        decreases n - k,
    {
        assert(line@.skip(k as int).drop_first() =~= line@.skip(k + 1));
        k = k + 1;
    }
    assert(cmd_len(line@.skip(k as int)) == 0) by {
        if k < n {
            assert(line@.skip(k as int)[0] == line@[k as int]);
        }
    }
    let mut cmd: Vec<char> = Vec::new();
    let mut raw: Vec<char> = Vec::new();
    let mut i: usize = 0;
    while i < n
        invariant
            n == line@.len(),
            k <= n,
            i <= n,
            cmd@ == line@.take(if i < k { i as int } else { k as int }),
            raw@ == (if i <= k + 1 { Seq::<char>::empty() } else { line@.subrange(k + 1, i as int) }),
        decreases n - i,
    {
        if i < k {
            cmd.push(line[i]);
        } else if i > k {
            raw.push(line[i]);
        }
        i = i + 1;
        assert(cmd@ =~= line@.take(if i < k { i as int } else { k as int }));
        assert(raw@ =~= (if i <= k + 1 { Seq::<char>::empty() } else { line@.subrange(k + 1, i as int) }));
    }
    assert(cmd@ =~= line_command(line@));
    assert(raw@ =~= line_rest(line@));
    let rest = interpolate_env(raw.as_slice(), env);
    let from_kw = chars_of("FROM");
    let shell_kw = chars_of("SHELL");
    let exec_kw = chars_of("EXEC");
    let add_kw = chars_of("ADD");
    let append_kw = chars_of("APPEND");
    let save_kw = chars_of("SAVE");
    if chars_eq(cmd.as_slice(), from_kw.as_slice()) {
        parse_from(extract_arguments(rest.as_slice()))
    } else if chars_eq(cmd.as_slice(), shell_kw.as_slice()) {
        parse_shell(rest.as_slice())
    } else if chars_eq(cmd.as_slice(), exec_kw.as_slice()) {
        parse_exec(extract_arguments(rest.as_slice()))
    } else if chars_eq(cmd.as_slice(), add_kw.as_slice()) {
        parse_add(extract_arguments(rest.as_slice()))
    } else if chars_eq(cmd.as_slice(), append_kw.as_slice()) {
        parse_append(extract_arguments(rest.as_slice()))
    } else if chars_eq(cmd.as_slice(), save_kw.as_slice()) {
        parse_save(extract_arguments(rest.as_slice()))
    } else {
        Err(PatchError::UnknownInstruction(string_of(cmd.as_slice())))
    }
}

/// The lines of a text: the pieces between newline characters.
pub open spec fn split_lines(s: Seq<char>, cur: Seq<char>) -> Seq<Seq<char>>
    decreases s.len(),
{
    if s.len() == 0 {
        seq![cur]
    } else if s[0] == '\n' {
        seq![cur] + split_lines(s.drop_first(), seq![])
    } else {
        split_lines(s.drop_first(), cur.push(s[0]))
    }
}

/// The lines of a Patcherfile.
pub open spec fn text_lines(s: Seq<char>) -> Seq<Seq<char>> {
    split_lines(s, seq![])
}

/// Whether a trimmed line holds an instruction: it is neither blank nor a
/// comment.
pub open spec fn is_instruction_line(t: Seq<char>) -> bool {
    t.len() > 0 && t[0] != '#'
}

/// The instructions of a sequence of lines, or the error of the first line
/// that does not parse.
pub open spec fn parse_lines(lines: Seq<Seq<char>>, env: Seq<(Seq<char>, Seq<char>)>) -> Result<
    Seq<InstructionModel>,
    PatchErrorModel,
>
    decreases lines.len(),
{
    if lines.len() == 0 {
        Ok(seq![])
    } else {
        let t = trim(lines[0]);
        if !is_instruction_line(t) {
            parse_lines(lines.drop_first(), env)
        } else {
            match line_model(t, env) {
                Err(e) => Err(e),
                Ok(i) => match parse_lines(lines.drop_first(), env) {
                    Err(e) => Err(e),
                    Ok(v) => Ok(seq![i] + v),
                },
            }
        }
    }
}

/// `r` with `p` put in front of its instructions.
pub open spec fn prefixed(p: Seq<InstructionModel>, r: Result<Seq<InstructionModel>, PatchErrorModel>) -> Result<
    Seq<InstructionModel>,
    PatchErrorModel,
> {
    match r {
        Ok(v) => Ok(p + v),
        Err(e) => Err(e),
    }
}

/// How many `FROM` instructions `v` holds.
pub open spec fn count_from(v: Seq<InstructionModel>) -> nat
    decreases v.len(),
{
    if v.len() == 0 {
        0
    } else {
        count_from(v.drop_last()) + if v.last() is From { 1nat } else { 0nat }
    }
}

/// How many `SAVE` instructions `v` holds.
pub open spec fn count_save(v: Seq<InstructionModel>) -> nat
    decreases v.len(),
{
    if v.len() == 0 {
        0
    } else {
        count_save(v.drop_last()) + if v.last() is Save { 1nat } else { 0nat }
    }
}

/// Why a parsed Patcherfile is not a valid patch session, if it is not: it
/// must hold exactly one `FROM` and exactly one `SAVE`, and end with `SAVE`.
pub open spec fn validation_error(v: Seq<InstructionModel>) -> Option<PatchErrorModel> {
    if v.len() == 0 {
        Some(PatchErrorModel::EmptyPatcherfile)
    } else if count_from(v) == 0 {
        Some(PatchErrorModel::MissingFromInstruction)
    } else if count_from(v) > 1 {
        Some(PatchErrorModel::MultipleFromInstructions)
    } else if count_save(v) == 0 {
        Some(PatchErrorModel::MissingSaveInstruction)
    } else if count_save(v) > 1 {
        Some(PatchErrorModel::MultipleSaveInstructions)
    } else if !(v.last() is Save) {
        Some(PatchErrorModel::SaveMustBeLastInstruction)
    } else {
        None
    }
}

/// What a Patcherfile parses to, given the environment.
pub open spec fn patcherfile_model(text: Seq<char>, env: Seq<(Seq<char>, Seq<char>)>) -> Result<
    Seq<InstructionModel>,
    PatchErrorModel,
> {
    match parse_lines(text_lines(text), env) {
        Err(e) => Err(e),
        Ok(v) => match validation_error(v) {
            Some(e) => Err(e),
            None => Ok(v),
        },
    }
}

/// The models of a sequence of instructions.
pub open spec fn instructions_view(v: Seq<Instruction>) -> Seq<InstructionModel> {
    v.map_values(|i: Instruction| i@)
}

/// Whether parsed instructions form one patch session: not empty, exactly
/// one `FROM`, exactly one `SAVE`, and `SAVE` last; otherwise the first rule
/// they break, in that order.
pub fn validate_instructions(instructions: &[Instruction]) -> (r: Result<(), PatchError>)
    ensures
        match r {
            Ok(()) => validation_error(instructions_view(instructions@)) is None,
            Err(e) => validation_error(instructions_view(instructions@)) == Some(e@),
        },
{
    let ghost v = instructions_view(instructions@);
    if instructions.len() == 0 {
        return Err(PatchError::EmptyPatcherfile);
    }
    let n = instructions.len();
    let mut from_count: usize = 0;
    let mut save_count: usize = 0;
    let mut k: usize = 0;
    while k < n
        invariant
            n == instructions@.len(),
            v == instructions_view(instructions@),
            k <= n,
            from_count == count_from(v.take(k as int)),
            save_count == count_save(v.take(k as int)),
            from_count <= k,
            save_count <= k,
        decreases n - k,
    {
        assert(v.take(k + 1).drop_last() =~= v.take(k as int));
        assert(v.take(k + 1).last() == instructions@[k as int]@);
        match &instructions[k] {
            Instruction::From { .. } => {
                from_count = from_count + 1;
            },
            Instruction::Save { .. } => {
                save_count = save_count + 1;
            },
            _ => {},
        }
        k = k + 1;
    }
    assert(v.take(n as int) =~= v);
    if from_count == 0 {
        return Err(PatchError::MissingFromInstruction);
    }
    if from_count > 1 {
        return Err(PatchError::MultipleFromInstructions);
    }
    if save_count == 0 {
        return Err(PatchError::MissingSaveInstruction);
    }
    if save_count > 1 {
        return Err(PatchError::MultipleSaveInstructions);
    }
    assert(v.last() == instructions@[n - 1]@);
    match &instructions[n - 1] {
        Instruction::Save { .. } => Ok(()),
        _ => Err(PatchError::SaveMustBeLastInstruction),
    }
}

/// Parses a Patcherfile, expanding `$VAR` references with the values in `env`.
///
/// The result is the instructions in the order of their lines, or the error of
/// the first line that does not parse, or the reason the instructions do not
/// form a valid patch session.
pub fn parse_instructions(patcherfile: &str, env: &EnvVars) -> (r: Result<Vec<Instruction>, PatchError>)
    ensures
        match r {
            Ok(v) => patcherfile_model(patcherfile@, env@) == Ok::<
                Seq<InstructionModel>,
                PatchErrorModel,
            >(instructions_view(v@)),
            Err(e) => patcherfile_model(patcherfile@, env@) == Err::<
                Seq<InstructionModel>,
                PatchErrorModel,
            >(e@),
        },
{
    let text = chars_of(patcherfile);
    let n = text.len();
    let ghost s = text@;
    // Split into lines.
    let mut lines: Vec<Vec<char>> = Vec::new();
    let mut cur: Vec<char> = Vec::new();
    let mut i: usize = 0;
    assert(s.skip(0) =~= s);
    assert(lines_view(lines@) + split_lines(s, cur@) =~= text_lines(s));
    while i < n
        invariant
            n == s.len(),
            s == text@,
            i <= n,
            lines_view(lines@) + split_lines(s.skip(i as int), cur@) == text_lines(s),
        decreases n - i,
    {
        let c = text[i];
        let ghost t = s.skip(i as int);
        assert(t.drop_first() =~= s.skip(i + 1));
        assert(t[0] == c);
        if c == '\n' {
            let ghost before = lines_view(lines@);
            let ghost cur_v = cur@;
            let line = copy_chars(cur.as_slice());
            lines.push(line);
            assert(lines_view(lines@) =~= before.push(cur_v));
            cur = Vec::new();
            assert(cur@ =~= Seq::<char>::empty());
            assert(lines_view(lines@) + split_lines(s.skip(i + 1), cur@) =~= before + (seq![cur_v]
                + split_lines(s.skip(i + 1), seq![])));
        } else {
            cur.push(c);
        }
        i = i + 1;
    }
    assert(s.skip(n as int) =~= Seq::<char>::empty());
    let ghost before = lines_view(lines@);
    let ghost cur_v = cur@;
    lines.push(cur);
    assert(lines_view(lines@) =~= before.push(cur_v));
    assert(lines_view(lines@) =~= text_lines(s));
    // Parse each line.
    let ghost all = lines_view(lines@);
    let m = lines.len();
    let mut out: Vec<Instruction> = Vec::new();
    let mut k: usize = 0;
    assert(all.skip(0) =~= all);
    assert(instructions_view(out@) =~= Seq::<InstructionModel>::empty());
    assert(prefixed(instructions_view(out@), parse_lines(all, env@)) =~= parse_lines(all, env@)) by {
        match parse_lines(all, env@) {
            Ok(v) => assert(Seq::<InstructionModel>::empty() + v =~= v),
            Err(_) => {},
        }
    };
    while k < m
        invariant
            m == lines@.len(),
            all == lines_view(lines@),
            all == text_lines(s),
            k <= m,
            prefixed(instructions_view(out@), parse_lines(all.skip(k as int), env@))
                == parse_lines(all, env@),
            s == patcherfile@,
        decreases m - k,
    {
        let ghost rest = all.skip(k as int);
        assert(rest.drop_first() =~= all.skip(k + 1));
        assert(rest[0] == lines@[k as int]@);
        let t = trim_chars(lines[k].as_slice());
        if t.len() > 0 && t[0] != '#' {
            let parsed = parse_line(t.as_slice(), env);
            match parsed {
                Err(e) => {
                    assert(parse_lines(rest, env@) == Err::<Seq<InstructionModel>, PatchErrorModel>(e@));
                    assert(parse_lines(all, env@) == Err::<Seq<InstructionModel>, PatchErrorModel>(e@));
                    assert(patcherfile_model(patcherfile@, env@) == Err::<Seq<InstructionModel>, PatchErrorModel>(e@));
                    return Err(e);
                },
                Ok(instr) => {
                    let ghost before = instructions_view(out@);
                    let ghost iv = instr@;
                    out.push(instr);
                    assert(instructions_view(out@) =~= before.push(iv));
                    assert(prefixed(instructions_view(out@), parse_lines(all.skip(k + 1), env@))
                        == prefixed(before, parse_lines(rest, env@))) by {
                        match parse_lines(all.skip(k + 1), env@) {
                            Ok(v) => assert(before.push(iv) + v =~= before + (seq![iv] + v)),
                            Err(_) => {},
                        }
                    };
                },
            }
        }
        k = k + 1;
    }
    assert(all.skip(m as int) =~= Seq::<Seq<char>>::empty());
    assert(instructions_view(out@) + Seq::<InstructionModel>::empty() =~= instructions_view(out@));
    validate_instructions(out.as_slice())?;
    Ok(out)
}

/// The characters of each line, in order.
pub open spec fn lines_view(v: Seq<Vec<char>>) -> Seq<Seq<char>> {
    v.map_values(|l: Vec<char>| l@)
}

/// A Patcherfile that parses describes one patch session: it holds exactly
/// one `FROM` and exactly one `SAVE`, and `SAVE` is its last instruction.
pub proof fn lemma_accepted_is_one_session(text: Seq<char>, env: Seq<(Seq<char>, Seq<char>)>)
    requires
        patcherfile_model(text, env) is Ok,
    ensures
        match patcherfile_model(text, env) {
            Ok(v) => v.len() > 0 && count_from(v) == 1 && count_save(v) == 1 && v.last() is Save,
            Err(_) => false,
        },
{
}

/// Lines that are neither instructions nor errors are passed over wherever
/// they stand.
proof fn lemma_parse_lines_skip(
    l1: Seq<Seq<char>>,
    x: Seq<char>,
    l2: Seq<Seq<char>>,
    env: Seq<(Seq<char>, Seq<char>)>,
)
    requires
        !is_instruction_line(trim(x)),
    ensures
        parse_lines(l1 + seq![x] + l2, env) == parse_lines(l1 + l2, env),
    decreases l1.len(),
{
    if l1.len() == 0 {
        assert(l1 + seq![x] + l2 =~= seq![x] + l2);
        assert((seq![x] + l2).drop_first() =~= l2);
        assert(l1 + l2 =~= l2);
    } else {
        assert((l1 + seq![x] + l2).drop_first() =~= l1.drop_first() + seq![x] + l2);
        assert((l1 + l2).drop_first() =~= l1.drop_first() + l2);
        assert((l1 + seq![x] + l2)[0] == l1[0]);
        assert((l1 + l2)[0] == l1[0]);
        lemma_parse_lines_skip(l1.drop_first(), x, l2, env);
    }
}

/// A newline ends the line being built and starts the lines of what follows.
proof fn lemma_split_lines_at_newline(a: Seq<char>, r: Seq<char>, cur: Seq<char>)
    ensures
        split_lines(a + seq!['\n'] + r, cur) == split_lines(a, cur) + split_lines(r, seq![]),
    decreases a.len(),
{
    if a.len() == 0 {
        assert(a + seq!['\n'] + r =~= seq!['\n'] + r);
        assert((seq!['\n'] + r).drop_first() =~= r);
    } else {
        assert((a + seq!['\n'] + r).drop_first() =~= a.drop_first() + seq!['\n'] + r);
        assert((a + seq!['\n'] + r)[0] == a[0]);
        if a[0] == '\n' {
            lemma_split_lines_at_newline(a.drop_first(), r, seq![]);
            assert(seq![cur] + (split_lines(a.drop_first(), seq![]) + split_lines(r, seq![])) =~= (seq![cur]
                + split_lines(a.drop_first(), seq![])) + split_lines(r, seq![]));
        } else {
            lemma_split_lines_at_newline(a.drop_first(), r, cur.push(a[0]));
        }
    }
}

/// Text without a newline is the end of the line being built.
proof fn lemma_split_lines_one(x: Seq<char>, cur: Seq<char>)
    requires
        !x.contains('\n'),
    ensures
        split_lines(x, cur) == seq![cur + x],
    decreases x.len(),
{
    if x.len() == 0 {
        assert(cur + x =~= cur);
    } else {
        assert(x[0] != '\n') by {
            assert(x.contains(x[0]));
        }
        assert(!x.drop_first().contains('\n')) by {
            if x.drop_first().contains('\n') {
                let i = choose|i: int| 0 <= i < x.drop_first().len() && x.drop_first()[i] == '\n';
                assert(x[i + 1] == '\n');
            }
        }
        lemma_split_lines_one(x.drop_first(), cur.push(x[0]));
        assert(cur.push(x[0]) + x.drop_first() =~= cur + x);
    }
}

/// Blank lines and comments are ignored: putting such a line between two
/// parts of a Patcherfile does not change what it parses to.
pub proof fn lemma_comment_lines_ignored(
    a: Seq<char>,
    x: Seq<char>,
    b: Seq<char>,
    env: Seq<(Seq<char>, Seq<char>)>,
)
    requires
        !x.contains('\n'),
        !is_instruction_line(trim(x)),
    ensures
        patcherfile_model(a + seq!['\n'] + x + seq!['\n'] + b, env) == patcherfile_model(
            a + seq!['\n'] + b,
            env,
        ),
{
    let with_x = a + seq!['\n'] + x + seq!['\n'] + b;
    assert(with_x =~= a + seq!['\n'] + (x + seq!['\n'] + b));
    lemma_split_lines_at_newline(a, x + seq!['\n'] + b, seq![]);
    lemma_split_lines_at_newline(x, b, seq![]);
    lemma_split_lines_one(x, seq![]);
    assert(Seq::<char>::empty() + x =~= x);
    lemma_split_lines_at_newline(a, b, seq![]);
    let la = text_lines(a);
    let lb = text_lines(b);
    assert(text_lines(with_x) =~= la + seq![x] + lb);
    lemma_parse_lines_skip(la, x, lb, env);
}

/// Text without a `$` is left as it is by variable expansion.
pub proof fn lemma_no_dollar_unchanged(s: Seq<char>, env: Seq<(Seq<char>, Seq<char>)>)
    requires
        !s.contains('$'),
    ensures
        interpolated(s, env) == s,
    decreases s.len(),
{
    if s.len() > 0 {
        assert(s[0] != '$') by {
            assert(s.contains(s[0]));
        }
        assert(!s.drop_first().contains('$')) by {
            if s.drop_first().contains('$') {
                let i = choose|i: int| 0 <= i < s.drop_first().len() && s.drop_first()[i] == '$';
                assert(s[i + 1] == '$');
            }
        }
        lemma_no_dollar_unchanged(s.drop_first(), env);
        assert(seq![s[0]] + s.drop_first() =~= s);
    } else {
        assert(s =~= Seq::<char>::empty());
    }
}

/// Inside double quotes every character but a quote belongs to the argument.
proof fn lemma_scan_quoted(w: Seq<char>, rest: Seq<char>, cur: Seq<char>)
    requires
        !w.contains('"'),
    ensures
        scan_args(w + rest, cur, true) == scan_args(rest, cur + w, true),
    decreases w.len(),
{
    if w.len() == 0 {
        assert(w + rest =~= rest);
        assert(cur + w =~= cur);
    } else {
        assert(w[0] != '"') by {
            assert(w.contains(w[0]));
        }
        assert(!w.drop_first().contains('"')) by {
            if w.drop_first().contains('"') {
                let i = choose|i: int| 0 <= i < w.drop_first().len() && w.drop_first()[i] == '"';
                assert(w[i + 1] == '"');
            }
        }
        assert((w + rest).drop_first() =~= w.drop_first() + rest);
        assert((w + rest)[0] == w[0]);
        lemma_scan_quoted(w.drop_first(), rest, cur.push(w[0]));
        assert(cur.push(w[0]) + w.drop_first() =~= cur + w);
    }
}

/// A double-quoted text is one argument, spaces and all.
pub proof fn lemma_quoted_is_one_argument(w: Seq<char>)
    requires
        w.len() > 0,
        !w.contains('"'),
    ensures
        arguments(seq!['"'] + w + seq!['"']) == seq![w],
{
    let s = seq!['"'] + w + seq!['"'];
    assert(s.drop_first() =~= w + seq!['"']);
    lemma_scan_quoted(w, seq!['"'], seq![]);
    assert(Seq::<char>::empty() + w =~= w);
    assert(s[0] == '"');
    assert(scan_args(s, seq![], false) == scan_args(w + seq!['"'], seq![], true));
    assert(seq!['"'].drop_first() =~= Seq::<char>::empty());
    assert(scan_args(seq!['"'], w, true) == scan_args(Seq::<char>::empty(), w, false));
}

/// Outside double quotes a space separates arguments: the arguments of two
/// texts joined by a space are those of the first followed by those of the
/// second.
pub proof fn lemma_space_separates_arguments(a: Seq<char>, b: Seq<char>)
    requires
        !a.contains('"'),
    ensures
        arguments(a + seq![' '] + b) == arguments(a) + arguments(b),
{
    lemma_scan_space(a, b, seq![]);
}

proof fn lemma_scan_space(a: Seq<char>, b: Seq<char>, cur: Seq<char>)
    requires
        !a.contains('"'),
    ensures
        scan_args(a + seq![' '] + b, cur, false) == scan_args(a, cur, false) + scan_args(b, seq![], false),
    decreases a.len(),
{
    if a.len() == 0 {
        assert(a + seq![' '] + b =~= seq![' '] + b);
        assert((seq![' '] + b).drop_first() =~= b);
        if cur.len() == 0 {
            assert(Seq::<Seq<char>>::empty() + scan_args(b, seq![], false) =~= scan_args(b, seq![], false));
        }
    } else {
        assert(a[0] != '"') by {
            assert(a.contains(a[0]));
        }
        assert(!a.drop_first().contains('"')) by {
            if a.drop_first().contains('"') {
                let i = choose|i: int| 0 <= i < a.drop_first().len() && a.drop_first()[i] == '"';
                assert(a[i + 1] == '"');
            }
        }
        assert((a + seq![' '] + b).drop_first() =~= a.drop_first() + seq![' '] + b);
        assert((a + seq![' '] + b)[0] == a[0]);
        if a[0] == ' ' {
            lemma_scan_space(a.drop_first(), b, seq![]);
            if cur.len() > 0 {
                assert(seq![cur] + (scan_args(a.drop_first(), seq![], false) + scan_args(b, seq![], false))
                    =~= (seq![cur] + scan_args(a.drop_first(), seq![], false)) + scan_args(
                    b,
                    seq![],
                    false,
                ));
            }
        } else {
            lemma_scan_space(a.drop_first(), b, cur.push(a[0]));
        }
    }
}

} // verus!
