//! Properties of the compiler, stated over the parse and emit models that the
//! compiler's contracts use, and proved.
use vstd::prelude::*;

use crate::emit::{
    assignments, conv_call, joint, path_sep, punct, default_trailer, emit_list, emit_target, emit_value, kept, overridden,
    render,
};
use crate::split::{closes_generics, depth_after, opens_generics, is_punct, next_separator, scan};
use crate::syntax::{
    effect_name, is_path_from, is_path_sep_at, is_type_path, parse_fields, parse_list, parse_value, Body, Field,
    Target, ValueExpr,
};
use crate::token::{Delimiter, Spacing, Tok};

verus! {

/// The body of every field-bodied construction ends with the default-fill
/// trailer `..::core::default::Default::default()`, so every field that the
/// body does not give takes the value of the type's `Default`.
pub proof fn lemma_default_fill(conv: Seq<Tok>, path: Seq<Tok>, fs: Seq<Field>)
    ensures
        ({
            let out = emit_target(conv, Target { path, body: Body::Fields(fs) });
            &&& out.len() == path.len() + 1
            &&& out.subrange(0, path.len() as int) == path
            &&& out[path.len() as int] matches Tok::Group(d, inner) && d == Delimiter::Brace
                && inner.len() >= default_trailer().len() && inner.subrange(
                inner.len() - default_trailer().len(),
                inner.len() as int,
            ) == default_trailer()
        }),
{
    let out = emit_target(conv, Target { path, body: Body::Fields(fs) });
    let inner = render(kept(assignments(conv, fs))) + default_trailer();
    assert(out.subrange(0, path.len() as int) =~= path);
    assert(inner.subrange(inner.len() - default_trailer().len(), inner.len() as int)
        =~= default_trailer());
}

/// A value `Path { fields }` is a nested construction: it compiles to the
/// converted construction of `Path` from its own fields, by the same rules,
/// so nesting goes to any depth.
pub proof fn lemma_nesting(conv: Seq<Tok>, path: Seq<Tok>, inner: Seq<Tok>)
    requires
        is_type_path(path),
        parse_fields(inner) is Ok,
    ensures
        ({
            let t = Target { path, body: Body::Fields(parse_fields(inner)->Ok_0) };
            &&& parse_value(path.push(Tok::Group(Delimiter::Brace, inner))) == Ok::<
                ValueExpr,
                crate::error::CompileError,
            >(ValueExpr::Nested(Box::new(t)))
            &&& emit_value(conv, ValueExpr::Nested(Box::new(t))) == conv_call(
                conv,
                path.push(
                    Tok::Group(
                        Delimiter::Brace,
                        render(kept(assignments(conv, parse_fields(inner)->Ok_0)))
                            + default_trailer(),
                    ),
                ),
            )
        }),
{
    let toks = path.push(Tok::Group(Delimiter::Brace, inner));
    assert(toks.subrange(0, toks.len() - 1) =~= path);
    assert(path.len() > 0) by {
        if path.len() == 0 {
            assert(!is_path_sep_at(path, 0));
            assert(!is_path_from(path, 0));
        }
    }
    assert(toks[toks.len() - 1] == Tok::Group(Delimiter::Brace, inner));
    let t = Target { path, body: Body::Fields(parse_fields(inner)->Ok_0) };
    assert(parse_value(toks) == Ok::<ValueExpr, crate::error::CompileError>(
        ValueExpr::Nested(Box::new(t)),
    ));
    assert(emit_target(conv, t) == path.push(
        Tok::Group(
            Delimiter::Brace,
            render(kept(assignments(conv, parse_fields(inner)->Ok_0))) + default_trailer(),
        ),
    ));
}

/// An effect applies to the converted value: `@box Path { .. }` compiles to
/// `boxed(f(Path { .. }))`, the box wrapped around the conversion of the
/// nested construction.
pub proof fn lemma_effect_of_nested(conv: Seq<Tok>, sp: Spacing, path: Seq<Tok>, inner: Seq<Tok>)
    requires
        is_type_path(path),
        parse_fields(inner) is Ok,
    ensures
        ({
            let t = Target { path, body: Body::Fields(parse_fields(inner)->Ok_0) };
            let toks = seq![Tok::Punct('@', sp), Tok::Ident("box"@)] + path.push(
                Tok::Group(Delimiter::Brace, inner),
            );
            let v = ValueExpr::Effect("boxed"@, Box::new(ValueExpr::Nested(Box::new(t))));
            &&& parse_value(toks) == Ok::<ValueExpr, crate::error::CompileError>(v)
            &&& emit_value(conv, v) == seq![
                Tok::Ident("boxed"@),
                Tok::Group(Delimiter::Parenthesis, conv_call(conv, emit_target(conv, t))),
            ]
        }),
{
    lemma_nesting(conv, path, inner);
    let nested = path.push(Tok::Group(Delimiter::Brace, inner));
    let toks = seq![Tok::Punct('@', sp), Tok::Ident("box"@)] + nested;
    let n = toks.len();
    let head = toks.subrange(0, n - 1);
    assert(!is_path_sep_at(head, 0));
    assert(!is_path_from(head, 0));
    assert(!is_type_path(head));
    assert(toks.subrange(2, n as int) =~= nested);
    reveal_strlit("boxed");
    reveal_strlit("arr");
    assert("boxed"@ != "arr"@) by {
        assert("boxed"@.len() != "arr"@.len());
    }
}

/// `@arr [a, b, ..]` compiles to `arr(f([v_a, v_b, ..,]))`, where each
/// element is compiled on its own.
pub proof fn lemma_array_collect(conv: Seq<Tok>, sp: Spacing, elems: Seq<Tok>)
    requires
        parse_list(elems) is Ok,
    ensures
        ({
            let vs = parse_list(elems)->Ok_0;
            let toks = seq![
                Tok::Punct('@', sp),
                Tok::Ident("arr"@),
                Tok::Group(Delimiter::Bracket, elems),
            ];
            let v = ValueExpr::Effect("arr"@, Box::new(ValueExpr::ArrayCollect(vs)));
            &&& parse_value(toks) == Ok::<ValueExpr, crate::error::CompileError>(v)
            &&& emit_value(conv, v) == seq![
                Tok::Ident("arr"@),
                Tok::Group(
                    Delimiter::Parenthesis,
                    conv_call(conv, seq![Tok::Group(Delimiter::Bracket, emit_list(conv, vs))]),
                ),
            ]
        }),
{
    let toks = seq![Tok::Punct('@', sp), Tok::Ident("arr"@), Tok::Group(Delimiter::Bracket, elems)];
    reveal_strlit("box");
    reveal_strlit("arr");
    assert("arr"@ != "box"@) by {
        assert("arr"@[1] != "box"@[1]);
    }
    assert(!is_path_sep_at(toks.subrange(0, 2), 0));
    assert(!is_path_from(toks.subrange(0, 2), 0));
    let vs = parse_list(elems)->Ok_0;
    assert(effect_name("arr"@) == "arr"@);
    assert(parse_value(toks) == Ok::<ValueExpr, crate::error::CompileError>(
        ValueExpr::Effect("arr"@, Box::new(ValueExpr::ArrayCollect(vs))),
    ));
    assert(emit_value(conv, ValueExpr::ArrayCollect(vs)) == conv_call(
        conv,
        seq![Tok::Group(Delimiter::Bracket, emit_list(conv, vs))],
    ));
}

/// The elements of a list compile independently of each other: the list
/// `xs, ys` compiles to the compiled `xs` followed by the compiled `ys`.
pub proof fn lemma_list_elementwise(conv: Seq<Tok>, xs: Seq<ValueExpr>, ys: Seq<ValueExpr>)
    ensures
        emit_list(conv, xs + ys) == emit_list(conv, xs) + emit_list(conv, ys),
    decreases xs.len(),
{
    if xs.len() == 0 {
        assert(xs + ys =~= ys);
    } else {
        lemma_list_elementwise(conv, xs.subrange(1, xs.len() as int), ys);
        assert((xs + ys).subrange(1, (xs + ys).len() as int) =~= xs.subrange(1, xs.len() as int)
            + ys);
        assert((xs + ys)[0] == xs[0]);
    }
}

/// A value written as a lone brace block is emitted as it stands, with no
/// conversion call around it.
pub proof fn lemma_passthrough(conv: Seq<Tok>, inner: Seq<Tok>)
    ensures
        ({
            let g = Tok::Group(Delimiter::Brace, inner);
            &&& parse_value(seq![g]) == Ok::<ValueExpr, crate::error::CompileError>(
                ValueExpr::Passthrough(g),
            )
            &&& emit_value(conv, ValueExpr::Passthrough(g)) == seq![g]
        }),
{
    let g = Tok::Group(Delimiter::Brace, inner);
    assert(!is_path_sep_at(seq![g].subrange(0, 0), 0));
}

/// The pair that `assignments` makes of each field.
pub proof fn lemma_assignments_index(conv: Seq<Tok>, fs: Seq<Field>)
    ensures
        assignments(conv, fs).len() == fs.len(),
        forall|i: int|
            0 <= i < fs.len() ==> #[trigger] assignments(conv, fs)[i] == (
                fs[i].name,
                emit_value(conv, fs[i].value),
            ),
    decreases fs.len(),
{
    if fs.len() > 0 {
        let rest = fs.subrange(1, fs.len() as int);
        lemma_assignments_index(conv, rest);
        assert forall|i: int| 0 <= i < fs.len() implies #[trigger] assignments(conv, fs)[i] == (
            fs[i].name,
            emit_value(conv, fs[i].value),
        ) by {
            if i > 0 {
                assert(assignments(conv, fs)[i] == assignments(conv, rest)[i - 1]);
                assert(rest[i - 1] == fs[i]);
            }
        }
    }
}

/// The assignment at `m` is the last one of its name.
pub open spec fn is_last_of_name(asg: Seq<(Seq<char>, Seq<Tok>)>, m: int) -> bool {
    0 <= m < asg.len() && !overridden(asg[m].0, asg.subrange(m + 1, asg.len() as int))
}

/// `kept` holds exactly the assignments that are the last of their name.
pub proof fn lemma_kept_elements(asg: Seq<(Seq<char>, Seq<Tok>)>)
    ensures
        forall|k: int|
            0 <= k < kept(asg).len() ==> exists|m: int|
                is_last_of_name(asg, m) && #[trigger] kept(asg)[k] == asg[m],
        forall|m: int| is_last_of_name(asg, m) ==> kept(asg).contains(#[trigger] asg[m]),
    decreases asg.len(),
{
    if asg.len() > 0 {
        let n = asg.len() as int;
        let rest = asg.subrange(1, n);
        lemma_kept_elements(rest);
        assert forall|m: int| 0 <= m < rest.len() implies is_last_of_name(rest, m)
            == #[trigger] is_last_of_name(asg, m + 1) by {
            assert(rest.subrange(m + 1, rest.len() as int) =~= asg.subrange(m + 2, n));
            assert(rest[m] == asg[m + 1]);
        }
        let ks = kept(asg);
        let kr = kept(rest);
        if overridden(asg[0].0, rest) {
            assert(ks == kr);
            assert forall|k: int| 0 <= k < ks.len() implies exists|m: int|
                is_last_of_name(asg, m) && #[trigger] ks[k] == asg[m] by {
                let m = choose|m: int| is_last_of_name(rest, m) && kr[k] == rest[m];
                assert(is_last_of_name(asg, m + 1));
            }
            assert forall|m: int| is_last_of_name(asg, m) implies ks.contains(#[trigger] asg[m]) by {
                if m == 0 {
                    assert(rest =~= asg.subrange(1, n));
                } else {
                    assert(is_last_of_name(rest, m - 1));
                    assert(rest[m - 1] == asg[m]);
                }
            }
        } else {
            assert(ks == seq![asg[0]] + kr);
            assert forall|k: int| 0 <= k < ks.len() implies exists|m: int|
                is_last_of_name(asg, m) && #[trigger] ks[k] == asg[m] by {
                if k == 0 {
                    assert(is_last_of_name(asg, 0));
                } else {
                    assert(ks[k] == kr[k - 1]);
                    let m = choose|m: int| is_last_of_name(rest, m) && kr[k - 1] == rest[m];
                    assert(is_last_of_name(asg, m + 1));
                }
            }
            assert forall|m: int| is_last_of_name(asg, m) implies ks.contains(#[trigger] asg[m]) by {
                if m == 0 {
                    assert(ks[0] == asg[0]);
                } else {
                    assert(is_last_of_name(rest, m - 1));
                    assert(rest[m - 1] == asg[m]);
                    let k = choose|k: int| 0 <= k < kr.len() && kr[k] == rest[m - 1];
                    assert(ks[k + 1] == kr[k]);
                }
            }
        }
    }
}

/// When a field name is given more than once, the emitted structure assigns
/// it once, with the value given last.
pub proof fn lemma_last_wins(conv: Seq<Tok>, fs: Seq<Field>, j: int)
    requires
        0 <= j < fs.len(),
        forall|k: int| j < k < fs.len() ==> #[trigger] fs[k].name != fs[j].name,
    ensures
        ({
            let ks = kept(assignments(conv, fs));
            let last = (fs[j].name, emit_value(conv, fs[j].value));
            &&& ks.contains(last)
            &&& forall|k: int| 0 <= k < ks.len() && #[trigger] ks[k].0 == fs[j].name ==> ks[k] == last
        }),
{
    let asg = assignments(conv, fs);
    let n = asg.len() as int;
    lemma_assignments_index(conv, fs);
    lemma_kept_elements(asg);
    let name = fs[j].name;
    assert(is_last_of_name(asg, j)) by {
        if overridden(name, asg.subrange(j + 1, n)) {
            let i = choose|i: int| 0 <= i < n - j - 1 && #[trigger] asg.subrange(j + 1, n)[i].0 == name;
            assert(asg[j + 1 + i].0 == fs[j + 1 + i].name);
        }
    }
    let ks = kept(asg);
    assert(ks.contains(asg[j]));
    assert forall|k: int| 0 <= k < ks.len() && #[trigger] ks[k].0 == name implies ks[k] == asg[j] by {
        let m = choose|m: int| is_last_of_name(asg, m) && ks[k] == asg[m];
        if m < j {
            assert(asg.subrange(m + 1, n)[j - m - 1] == asg[j]);
            assert(overridden(asg[m].0, asg.subrange(m + 1, n)));
        } else if m > j {
            assert(fs[m].name == name);
        }
    }
}

/// No two fields share a name.
pub open spec fn distinct_names(fs: Seq<Field>) -> bool {
    forall|i: int, j: int| 0 <= i < j < fs.len() ==> fs[i].name != fs[j].name
}

proof fn lemma_kept_all(asg: Seq<(Seq<char>, Seq<Tok>)>)
    requires
        forall|i: int, j: int| 0 <= i < j < asg.len() ==> asg[i].0 != asg[j].0,
    ensures
        kept(asg) == asg,
    decreases asg.len(),
{
    if asg.len() > 0 {
        let rest = asg.subrange(1, asg.len() as int);
        lemma_kept_all(rest);
        if overridden(asg[0].0, rest) {
            let i = choose|i: int| 0 <= i < rest.len() && #[trigger] rest[i].0 == asg[0].0;
            assert(asg[i + 1].0 == asg[0].0);
        }
        assert(seq![asg[0]] + rest =~= asg);
    }
}

/// Reordering fields with distinct names does not change what the emitted
/// structure assigns: the same name-value pairs, whatever the order.
pub proof fn lemma_order_independent(conv: Seq<Tok>, fs1: Seq<Field>, fs2: Seq<Field>)
    requires
        fs1.to_multiset() == fs2.to_multiset(),
        distinct_names(fs1),
        distinct_names(fs2),
    ensures
        kept(assignments(conv, fs1)).to_set() == kept(assignments(conv, fs2)).to_set(),
{
    let a1 = assignments(conv, fs1);
    let a2 = assignments(conv, fs2);
    lemma_assignments_index(conv, fs1);
    lemma_assignments_index(conv, fs2);
    assert forall|i: int, j: int| 0 <= i < j < a1.len() implies a1[i].0 != a1[j].0 by {
        assert(fs1[i].name != fs1[j].name);
    }
    assert forall|i: int, j: int| 0 <= i < j < a2.len() implies a2[i].0 != a2[j].0 by {
        assert(fs2[i].name != fs2[j].name);
    }
    lemma_kept_all(a1);
    lemma_kept_all(a2);
    fs1.to_multiset_ensures();
    fs2.to_multiset_ensures();
    assert forall|x: (Seq<char>, Seq<Tok>)| a1.contains(x) implies a2.contains(x) by {
        let i = choose|i: int| 0 <= i < a1.len() && a1[i] == x;
        assert(fs1.contains(fs1[i]));
        assert(fs1.to_multiset().count(fs1[i]) > 0);
        assert(fs2.contains(fs1[i]));
        let j = choose|j: int| 0 <= j < fs2.len() && fs2[j] == fs1[i];
        assert(a2[j] == x);
    }
    assert forall|x: (Seq<char>, Seq<Tok>)| a2.contains(x) implies a1.contains(x) by {
        let j = choose|j: int| 0 <= j < a2.len() && a2[j] == x;
        assert(fs2.contains(fs2[j]));
        assert(fs2.to_multiset().count(fs2[j]) > 0);
        assert(fs1.contains(fs2[j]));
        let i = choose|i: int| 0 <= i < fs1.len() && fs1[i] == fs2[j];
        assert(a1[i] == x);
    }
    assert(a1.to_set() =~= a2.to_set());
}

proof fn lemma_scan_plain(toks: Seq<Tok>, i: int, j: int, depth: nat, strict: bool)
    requires
        0 <= i <= j <= toks.len(),
        forall|k: int|
            i <= k < j ==> !is_punct(#[trigger] toks[k], '<') && !is_punct(toks[k], '>') && (depth
                == 0 ==> !is_punct(toks[k], ',')),
    ensures
        scan(toks, i, depth, strict) == scan(toks, j, depth, strict),
    decreases j - i,
{
    if i < j {
        lemma_scan_plain(toks, i + 1, j, depth, strict);
    }
}

/// The angle depth after the first `n` tokens of `toks`, counting every `<`
/// and `>`; `None` once a `>` has come at depth zero.
pub open spec fn angle_depth(toks: Seq<Tok>, n: int) -> Option<nat>
    decreases n,
{
    if n <= 0 {
        Some(0)
    } else {
        match angle_depth(toks, n - 1) {
            Some(d) => depth_after(toks, n - 1, d, true),
            None => None,
        }
    }
}

proof fn lemma_angle_depth_prefix(toks: Seq<Tok>, m: int, n: int)
    requires
        0 <= m <= n,
        angle_depth(toks, n) is Some,
    ensures
        angle_depth(toks, m) is Some,
    decreases n - m,
{
    if m < n {
        lemma_angle_depth_prefix(toks, m + 1, n);
    }
}

/// Inside `<args>`, the target splitter runs one level deeper than `args`
/// alone: it meets no separator there.
proof fn lemma_scan_inside_generics(t: Seq<Tok>, start: int, args: Seq<Tok>, k: int)
    requires
        1 <= start,
        0 <= k <= args.len(),
        start + args.len() <= t.len(),
        is_punct(t[start - 1], '<'),
        forall|i: int| 0 <= i < args.len() ==> t[start + i] == #[trigger] args[i],
        angle_depth(args, args.len() as int) is Some,
    ensures
        angle_depth(args, k) matches Some(d) && scan(t, start, 1, true) == scan(
            t,
            start + k,
            d + 1,
            true,
        ),
    decreases k,
{
    lemma_angle_depth_prefix(args, k, args.len() as int);
    if k > 0 {
        lemma_scan_inside_generics(t, start, args, k - 1);
        let d = angle_depth(args, k - 1)->Some_0;
        let i = start + k - 1;
        assert(t[i] == args[k - 1]);
        if k >= 2 {
            assert(t[i - 1] == args[k - 2]);
        } else {
            assert(!(t[i - 1] == Tok::Punct('-', Spacing::Joint)));
            assert(!(t[i - 1] == Tok::Punct('=', Spacing::Joint)));
        }
        assert(closes_generics(t, i) == closes_generics(args, k - 1));
        assert(opens_generics(t, i, d + 1, true) == opens_generics(args, k - 1, d, true));
    }
}

/// Commas inside a generic-argument list do not separate targets: the
/// target splitter reads `head::<args> { .. }` as one run, however many
/// commas `args` holds, when the angle brackets of `args` balance.
pub proof fn lemma_generic_commas_do_not_split(
    head: Seq<Tok>,
    args: Seq<Tok>,
    d: Delimiter,
    body: Seq<Tok>,
)
    requires
        forall|k: int|
            0 <= k < head.len() ==> !is_punct(#[trigger] head[k], ',') && !is_punct(head[k], '<')
                && !is_punct(head[k], '>'),
        angle_depth(args, args.len() as int) == Some(0nat),
        args.len() > 0 ==> args.last() != Tok::Punct('-', Spacing::Joint) && args.last()
            != Tok::Punct('=', Spacing::Joint),
    ensures
        ({
            let t = head + path_sep() + seq![punct('<')] + args + seq![
                punct('>'),
                Tok::Group(d, body),
            ];
            next_separator(t, true) == Ok::<int, crate::error::CompileError>(t.len() as int)
        }),
{
    let t = head + path_sep() + seq![punct('<')] + args + seq![punct('>'), Tok::Group(d, body)];
    let h = head.len() as int;
    let a = args.len() as int;
    assert(t.len() == h + a + 5);
    assert(t[h] == joint(':'));
    assert(t[h + 1] == punct(':'));
    assert(t[h + 2] == punct('<'));
    assert(t[h + 3 + a] == punct('>'));
    assert(t[h + 4 + a] == Tok::Group(d, body));
    assert forall|k: int| 0 <= k < h + 2 implies !is_punct(#[trigger] t[k], '<') && !is_punct(
        t[k],
        '>',
    ) && !is_punct(t[k], ',') by {
        if k < h {
            assert(t[k] == head[k]);
        }
    }
    lemma_scan_plain(t, 0, h + 2, 0, true);
    assert(scan(t, h + 2, 0, true) == scan(t, h + 3, 1, true)) by {
        assert(opens_generics(t, h + 2, 0, true));
        assert(depth_after(t, h + 2, 0, true) == Some(1nat));
    }
    assert forall|i: int| 0 <= i < a implies t[h + 3 + i] == #[trigger] args[i] by {}
    lemma_scan_inside_generics(t, h + 3, args, a);
    assert(scan(t, h + 3 + a, 1, true) == scan(t, h + 4 + a, 0, true)) by {
        if a > 0 {
            assert(t[h + 2 + a] == args[a - 1]);
        }
        assert(!opens_generics(t, h + 3 + a, 1, true));
        assert(closes_generics(t, h + 3 + a));
        assert(depth_after(t, h + 3 + a, 1, true) == Some(0nat));
    }
    assert(scan(t, h + 4 + a, 0, true) == scan(t, h + 5 + a, 0, true)) by {
        assert(!is_punct(t[h + 4 + a], ','));
        assert(depth_after(t, h + 4 + a, 0, true) == Some(0nat));
    }
    assert(scan(t, h + 5 + a, 0, true) == Ok::<(int, nat), crate::error::CompileError>(
        (t.len() as int, 0nat),
    ));
}

} // verus!
