//! Generation of the typed access layer: Rust source text for each query.
use vstd::prelude::*;
use crate::model::{Kind, Param, Output, Query, QuerySpec, param_names, params_view, outputs_view, queries_view};
use crate::text::{decimal, push_str, push_chars, push_decimal};
use crate::rewrite::{rewrite_named, rewrite_placeholders, views};

verus! {

/// The pieces one after the other.
pub open spec fn concat(items: Seq<Seq<char>>) -> Seq<char>
    decreases items.len(),
{
    if items.len() == 0 {
        Seq::empty()
    } else {
        concat(items.drop_last()) + items.last()
    }
}

/// The pieces with `sep` between each two.
pub open spec fn join(items: Seq<Seq<char>>, sep: Seq<char>) -> Seq<char>
    decreases items.len(),
{
    if items.len() == 0 {
        Seq::empty()
    } else if items.len() == 1 {
        items[0]
    } else {
        join(items.drop_last(), sep) + sep + items.last()
    }
}

/// `s` as the contents of a Rust string literal: backslashes and quotes
/// escaped.
pub open spec fn escaped(s: Seq<char>) -> Seq<char>
    decreases s.len(),
{
    if s.len() == 0 {
        Seq::empty()
    } else {
        let c = s.last();
        escaped(s.drop_last()) + if c == '\\' {
            seq!['\\', '\\']
        } else if c == '"' {
            seq!['\\', '"']
        } else {
            seq![c]
        }
    }
}

/// `, name: &type` for each parameter.
pub open spec fn params_declr(ps: Seq<(Seq<char>, Seq<char>)>) -> Seq<char> {
    concat(ps.map_values(|p: (Seq<char>, Seq<char>)| ", "@ + p.0 + ": &"@ + p.1))
}

/// The output types, separated by commas.
pub open spec fn outputs_declr(os: Seq<Seq<char>>) -> Seq<char> {
    join(os, ", "@)
}

fn push_escaped(out: &mut Vec<char>, s: &Vec<char>)
    ensures
        final(out)@ == old(out)@ + escaped(s@),
{
    let ghost start = out@;
    let mut i: usize = 0;
    while i < s.len()
        invariant
            i <= s@.len(),
            out@ == start + escaped(s@.subrange(0, i as int)),
        decreases s@.len() - i,
    {
        let c = s[i];
        if c == '\\' {
            out.push('\\');
            out.push('\\');
        } else if c == '"' {
            out.push('\\');
            out.push('"');
        } else {
            out.push(c);
        }
        assert(s@.subrange(0, i + 1).drop_last() =~= s@.subrange(0, i as int));
        assert(out@ =~= start + escaped(s@.subrange(0, i + 1)));
        i = i + 1;
    }
    assert(s@.subrange(0, s@.len() as int) =~= s@);
}

fn push_params_declr(out: &mut Vec<char>, ps: &Vec<Param>)
    ensures
        final(out)@ == old(out)@ + params_declr(params_view(ps@)),
{
    let ghost start = out@;
    let ghost items = params_view(ps@).map_values(|p: (Seq<char>, Seq<char>)| ", "@ + p.0 + ": &"@ + p.1);
    let mut i: usize = 0;
    while i < ps.len()
        invariant
            i <= ps@.len(),
            items == params_view(ps@).map_values(|p: (Seq<char>, Seq<char>)| ", "@ + p.0 + ": &"@ + p.1),
            out@ == start + concat(items.subrange(0, i as int)),
        decreases ps@.len() - i,
    {
        push_str(out, ", ");
        push_chars(out, &ps[i].name);
        push_str(out, ": &");
        push_chars(out, &ps[i].ty);
        assert(items.subrange(0, i + 1).drop_last() =~= items.subrange(0, i as int));
        assert(out@ =~= start + concat(items.subrange(0, i + 1)));
        i = i + 1;
    }
    assert(items.subrange(0, ps@.len() as int) =~= items);
}


/// `row.get(0)?, row.get(1)?, ...` (with `getter` for `get`), one for each
/// of `n` columns.
pub open spec fn row_gets(getter: Seq<char>, n: nat) -> Seq<char> {
    join(Seq::new(n, |i: int| "row."@ + getter + "("@ + decimal(i as nat) + ")?"@), ", "@)
}

/// The parameters as the network driver takes them.
pub open spec fn pg_args(ps: Seq<(Seq<char>, Seq<char>)>) -> Seq<char> {
    "&["@ + join(ps.map_values(|p: (Seq<char>, Seq<char>)| "&"@ + p.0 + " as &(dyn postgres::types::ToSql + Sync)"@), ", "@) + "]"@
}

/// The parameters as the embedded driver takes them: by name.
pub open spec fn sqlite_args(ps: Seq<(Seq<char>, Seq<char>)>) -> Seq<char> {
    if ps.len() == 0 {
        "[]"@
    } else {
        "&["@ + join(ps.map_values(|p: (Seq<char>, Seq<char>)| "(\":"@ + p.0 + "\", &"@ + p.0 + " as &dyn rusqlite::ToSql)"@), ", "@) + "]"@
    }
}

/// `a, b, ` for parameters `a` and `b`: arguments handed on.
pub open spec fn relay(ps: Seq<(Seq<char>, Seq<char>)>) -> Seq<char> {
    concat(ps.map_values(|p: (Seq<char>, Seq<char>)| p.0 + ", "@))
}

proof fn lemma_join_step(items: Seq<Seq<char>>, sep: Seq<char>, i: int)
    requires
        0 <= i < items.len(),
    ensures
        join(items.subrange(0, i + 1), sep) == if i == 0 {
            items[0]
        } else {
            join(items.subrange(0, i), sep) + sep + items[i]
        },
{
    assert(items.subrange(0, i + 1).drop_last() =~= items.subrange(0, i));
}

fn push_outputs_declr(out: &mut Vec<char>, os: &Vec<Output>)
    ensures
        final(out)@ == old(out)@ + outputs_declr(outputs_view(os@)),
{
    let ghost start = out@;
    let ghost items = outputs_view(os@);
    let mut i: usize = 0;
    while i < os.len()
        invariant
            i <= os@.len(),
            items == outputs_view(os@),
            out@ == start + join(items.subrange(0, i as int), ", "@),
        decreases os@.len() - i,
    {
        let ghost before = out@;
        if i > 0 {
            push_str(out, ", ");
        }
        push_chars(out, &os[i].ty);
        proof {
            lemma_join_step(items, ", "@, i as int);
        }
        assert(out@ =~= start + join(items.subrange(0, i + 1), ", "@));
        i = i + 1;
    }
    assert(items.subrange(0, os@.len() as int) =~= items);
}

fn push_row_gets(out: &mut Vec<char>, getter: &str, n: usize)
    ensures
        final(out)@ == old(out)@ + row_gets(getter@, n as nat),
{
    let ghost start = out@;
    let ghost items = Seq::new(n as nat, |i: int| "row."@ + getter@ + "("@ + decimal(i as nat) + ")?"@);
    let mut i: usize = 0;
    while i < n
        invariant
            i <= n,
            items == Seq::new(n as nat, |i: int| "row."@ + getter@ + "("@ + decimal(i as nat) + ")?"@),
            out@ == start + join(items.subrange(0, i as int), ", "@),
        decreases n - i,
    {
        if i > 0 {
            push_str(out, ", ");
        }
        push_str(out, "row.");
        push_str(out, getter);
        push_str(out, "(");
        push_decimal(out, i);
        push_str(out, ")?");
        proof {
            lemma_join_step(items, ", "@, i as int);
        }
        assert(out@ =~= start + join(items.subrange(0, i + 1), ", "@));
        i = i + 1;
    }
    assert(items.subrange(0, n as int) =~= items);
}

fn push_pg_args(out: &mut Vec<char>, ps: &Vec<Param>)
    ensures
        final(out)@ == old(out)@ + pg_args(params_view(ps@)),
{
    let ghost start = out@;
    let ghost items = params_view(ps@).map_values(|p: (Seq<char>, Seq<char>)| "&"@ + p.0 + " as &(dyn postgres::types::ToSql + Sync)"@);
    push_str(out, "&[");
    let mut i: usize = 0;
    while i < ps.len()
        invariant
            i <= ps@.len(),
            items == params_view(ps@).map_values(|p: (Seq<char>, Seq<char>)| "&"@ + p.0 + " as &(dyn postgres::types::ToSql + Sync)"@),
            out@ == start + "&["@ + join(items.subrange(0, i as int), ", "@),
        decreases ps@.len() - i,
    {
        if i > 0 {
            push_str(out, ", ");
        }
        push_str(out, "&");
        push_chars(out, &ps[i].name);
        push_str(out, " as &(dyn postgres::types::ToSql + Sync)");
        proof {
            lemma_join_step(items, ", "@, i as int);
        }
        assert(out@ =~= start + "&["@ + join(items.subrange(0, i + 1), ", "@));
        i = i + 1;
    }
    assert(items.subrange(0, ps@.len() as int) =~= items);
    push_str(out, "]");
    assert(out@ =~= start + pg_args(params_view(ps@)));
}

fn push_sqlite_args(out: &mut Vec<char>, ps: &Vec<Param>)
    ensures
        final(out)@ == old(out)@ + sqlite_args(params_view(ps@)),
{
    if ps.len() == 0 {
        push_str(out, "[]");
        return;
    }
    let ghost start = out@;
    let ghost items = params_view(ps@).map_values(|p: (Seq<char>, Seq<char>)| "(\":"@ + p.0 + "\", &"@ + p.0 + " as &dyn rusqlite::ToSql)"@);
    push_str(out, "&[");
    let mut i: usize = 0;
    while i < ps.len()
        invariant
            i <= ps@.len(),
            items == params_view(ps@).map_values(|p: (Seq<char>, Seq<char>)| "(\":"@ + p.0 + "\", &"@ + p.0 + " as &dyn rusqlite::ToSql)"@),
            out@ == start + "&["@ + join(items.subrange(0, i as int), ", "@),
        decreases ps@.len() - i,
    {
        if i > 0 {
            push_str(out, ", ");
        }
        push_str(out, "(\":");
        push_chars(out, &ps[i].name);
        push_str(out, "\", &");
        push_chars(out, &ps[i].name);
        push_str(out, " as &dyn rusqlite::ToSql)");
        proof {
            lemma_join_step(items, ", "@, i as int);
        }
        assert(out@ =~= start + "&["@ + join(items.subrange(0, i + 1), ", "@));
        i = i + 1;
    }
    assert(items.subrange(0, ps@.len() as int) =~= items);
    push_str(out, "]");
    assert(out@ =~= start + sqlite_args(params_view(ps@)));
}

fn push_relay(out: &mut Vec<char>, ps: &Vec<Param>)
    ensures
        final(out)@ == old(out)@ + relay(params_view(ps@)),
{
    let ghost start = out@;
    let ghost items = params_view(ps@).map_values(|p: (Seq<char>, Seq<char>)| p.0 + ", "@);
    let mut i: usize = 0;
    while i < ps.len()
        invariant
            i <= ps@.len(),
            items == params_view(ps@).map_values(|p: (Seq<char>, Seq<char>)| p.0 + ", "@),
            out@ == start + concat(items.subrange(0, i as int)),
        decreases ps@.len() - i,
    {
        push_chars(out, &ps[i].name);
        push_str(out, ", ");
        assert(items.subrange(0, i + 1).drop_last() =~= items.subrange(0, i as int));
        assert(out@ =~= start + concat(items.subrange(0, i + 1)));
        i = i + 1;
    }
    assert(items.subrange(0, ps@.len() as int) =~= items);
}


/// `s` as a Rust string literal.
pub open spec fn literal(s: Seq<char>) -> Seq<char> {
    "\""@ + escaped(s) + "\""@
}

/// The SQL text that the network backend embeds: placeholders made
/// positional in named mode.
pub open spec fn pg_sql(q: QuerySpec) -> Seq<char> {
    if q.named {
        rewrite_named(q.sql, param_names(q.params))
    } else {
        q.sql
    }
}

/// The header of a network-backend method.
pub open spec fn pg_sig(n: Seq<char>, role: Seq<char>, prepared: bool, pd: Seq<char>, ret: Seq<char>) -> Seq<char> {
    "fn "@ + role + n + "(&mut self"@ + (if prepared { ", stmt: &Statement_"@ + n } else { Seq::empty() }) + pd
        + ") -> Result<"@ + ret + ", postgres::Error>"@
}

/// The headers and bodies of the network-backend methods of `q`: the
/// statement and row-count methods, then, when `q` declares outputs, those
/// that return rows.
pub open spec fn pg_methods(q: QuerySpec) -> Seq<(Seq<char>, Seq<char>)> {
    if q.outputs.len() == 0 {
        pg_methods_all(q).subrange(0, 4)
    } else {
        pg_methods_all(q)
    }
}

/// The headers and bodies of all network-backend methods of `q`.
pub open spec fn pg_methods_all(q: QuerySpec) -> Seq<(Seq<char>, Seq<char>)> {
    let n = q.name;
    let lit = literal(pg_sql(q));
    let pd = params_declr(q.params);
    let pa = pg_args(q.params);
    let od = outputs_declr(q.outputs);
    let st = "&stmt.0"@;
    let rows = "Vec<("@ + od + ")>"@;
    let one = "("@ + od + ")"@;
    let opt = "Option<("@ + od + ")>"@;
    seq![
        (
            "fn prepare_"@ + n + "(&mut self) -> Result<Statement_"@ + n + ", postgres::Error>"@,
            "self.prepare("@ + lit + ").map(Statement_"@ + n + ")"@,
        ),
        (
            "fn prepare_cached_"@ + n + "(&mut self, cache: &mut fnsql::cache::Cache) -> Result<Statement_"@ + n
                + ", postgres::Error>"@,
            "cache.prepare("@ + lit + ", |q, _| self.prepare(q)).map(Statement_"@ + n + ")"@,
        ),
        (pg_sig(n, "execute_"@, false, pd, "u64"@), "self.execute("@ + lit + ", "@ + pa + ")"@),
        (pg_sig(n, "execute_prepared_"@, true, pd, "u64"@), "self.execute("@ + st + ", "@ + pa + ")"@),
        (pg_sig(n, "queue_"@, false, pd, rows), pg_queue(n, lit, pa)),
        (pg_sig(n, "queue_prepared_"@, true, pd, rows), pg_queue(n, st, pa)),
        (pg_sig(n, "queue_one_"@, false, pd, one), pg_queue_one(n, lit, pa)),
        (pg_sig(n, "queue_one_prepared_"@, true, pd, one), pg_queue_one(n, st, pa)),
        (pg_sig(n, "queue_opt_"@, false, pd, opt), pg_queue_opt(n, lit, pa)),
        (pg_sig(n, "queue_opt_prepared_"@, true, pd, opt), pg_queue_opt(n, st, pa)),
    ]
}

pub open spec fn pg_queue(n: Seq<char>, target: Seq<char>, pa: Seq<char>) -> Seq<char> {
    "self.query("@ + target + ", "@ + pa + ")?.into_iter().map(convert_row_"@ + n + ").collect()"@
}

pub open spec fn pg_queue_one(n: Seq<char>, target: Seq<char>, pa: Seq<char>) -> Seq<char> {
    "convert_row_"@ + n + "(self.query_one("@ + target + ", "@ + pa + ")?)"@
}

pub open spec fn pg_queue_opt(n: Seq<char>, target: Seq<char>, pa: Seq<char>) -> Seq<char> {
    "self.query_opt("@ + target + ", "@ + pa + ")?.map(convert_row_"@ + n + ").transpose()"@
}

/// Method declarations of a trait.
pub open spec fn decls(ms: Seq<(Seq<char>, Seq<char>)>) -> Seq<char> {
    concat(ms.map_values(|m: (Seq<char>, Seq<char>)| "    "@ + m.0 + ";\n"@))
}

/// Method definitions of an impl.
pub open spec fn defs(ms: Seq<(Seq<char>, Seq<char>)>) -> Seq<char> {
    concat(ms.map_values(|m: (Seq<char>, Seq<char>)| "    "@ + m.0 + " {\n        "@ + m.1 + "\n    }\n"@))
}

pub open spec fn methods_view(ms: Seq<(Vec<char>, Vec<char>)>) -> Seq<(Seq<char>, Seq<char>)> {
    ms.map_values(|m: (Vec<char>, Vec<char>)| (m.0@, m.1@))
}

fn push_decls(out: &mut Vec<char>, ms: &Vec<(Vec<char>, Vec<char>)>)
    ensures
        final(out)@ == old(out)@ + decls(methods_view(ms@)),
{
    let ghost start = out@;
    let ghost items = methods_view(ms@).map_values(|m: (Seq<char>, Seq<char>)| "    "@ + m.0 + ";\n"@);
    let mut i: usize = 0;
    while i < ms.len()
        invariant
            i <= ms@.len(),
            items == methods_view(ms@).map_values(|m: (Seq<char>, Seq<char>)| "    "@ + m.0 + ";\n"@),
            out@ == start + concat(items.subrange(0, i as int)),
        decreases ms@.len() - i,
    {
        push_str(out, "    ");
        push_chars(out, &ms[i].0);
        push_str(out, ";\n");
        assert(items.subrange(0, i + 1).drop_last() =~= items.subrange(0, i as int));
        assert(out@ =~= start + concat(items.subrange(0, i + 1)));
        i = i + 1;
    }
    assert(items.subrange(0, ms@.len() as int) =~= items);
}

fn push_defs(out: &mut Vec<char>, ms: &Vec<(Vec<char>, Vec<char>)>)
    ensures
        final(out)@ == old(out)@ + defs(methods_view(ms@)),
{
    let ghost start = out@;
    let ghost items = methods_view(ms@).map_values(|m: (Seq<char>, Seq<char>)| "    "@ + m.0 + " {\n        "@ + m.1 + "\n    }\n"@);
    let mut i: usize = 0;
    while i < ms.len()
        invariant
            i <= ms@.len(),
            items == methods_view(ms@).map_values(|m: (Seq<char>, Seq<char>)| "    "@ + m.0 + " {\n        "@ + m.1 + "\n    }\n"@),
            out@ == start + concat(items.subrange(0, i as int)),
        decreases ms@.len() - i,
    {
        push_str(out, "    ");
        push_chars(out, &ms[i].0);
        push_str(out, " {\n        ");
        push_chars(out, &ms[i].1);
        push_str(out, "\n    }\n");
        assert(items.subrange(0, i + 1).drop_last() =~= items.subrange(0, i as int));
        assert(out@ =~= start + concat(items.subrange(0, i + 1)));
        i = i + 1;
    }
    assert(items.subrange(0, ms@.len() as int) =~= items);
}

fn literal_of(s: &Vec<char>) -> (r: Vec<char>)
    ensures
        r@ == literal(s@),
{
    let mut r: Vec<char> = Vec::new();
    push_str(&mut r, "\"");
    push_escaped(&mut r, s);
    push_str(&mut r, "\"");
    assert(r@ =~= literal(s@));
    r
}

fn pg_sql_of(q: &Query) -> (r: Vec<char>)
    ensures
        r@ == pg_sql(q@),
{
    if q.named {
        let names = crate::parse::param_name_list(&q.params);
        rewrite_placeholders(&q.sql, &names)
    } else {
        crate::text::copy_chars(&q.sql)
    }
}

fn pg_sig_of(n: &Vec<char>, role: &str, prepared: bool, pd: &Vec<char>, ret: &Vec<char>) -> (r: Vec<char>)
    ensures
        r@ == pg_sig(n@, role@, prepared, pd@, ret@),
{
    let mut r: Vec<char> = Vec::new();
    push_str(&mut r, "fn ");
    push_str(&mut r, role);
    push_chars(&mut r, n);
    push_str(&mut r, "(&mut self");
    let ghost mid = r@;
    if prepared {
        push_str(&mut r, ", stmt: &Statement_");
        push_chars(&mut r, n);
    }
    assert(r@ =~= mid + (if prepared { ", stmt: &Statement_"@ + n@ } else { Seq::empty() }));
    push_chars(&mut r, pd);
    push_str(&mut r, ") -> Result<");
    push_chars(&mut r, ret);
    push_str(&mut r, ", postgres::Error>");
    assert(r@ =~= pg_sig(n@, role@, prepared, pd@, ret@));
    r
}

/// What `pg_queue`, `pg_queue_one` or `pg_queue_opt` (by `shape` 0, 1, 2)
/// gives.
pub open spec fn pg_call(shape: nat, n: Seq<char>, target: Seq<char>, pa: Seq<char>) -> Seq<char> {
    if shape == 0 {
        pg_queue(n, target, pa)
    } else if shape == 1 {
        pg_queue_one(n, target, pa)
    } else {
        pg_queue_opt(n, target, pa)
    }
}

fn pg_call_of(shape: usize, n: &Vec<char>, target: &Vec<char>, pa: &Vec<char>) -> (r: Vec<char>)
    ensures
        r@ == pg_call(shape as nat, n@, target@, pa@),
{
    let mut r: Vec<char> = Vec::new();
    if shape == 0 {
        push_str(&mut r, "self.query(");
        push_chars(&mut r, target);
        push_str(&mut r, ", ");
        push_chars(&mut r, pa);
        push_str(&mut r, ")?.into_iter().map(convert_row_");
        push_chars(&mut r, n);
        push_str(&mut r, ").collect()");
    } else if shape == 1 {
        push_str(&mut r, "convert_row_");
        push_chars(&mut r, n);
        push_str(&mut r, "(self.query_one(");
        push_chars(&mut r, target);
        push_str(&mut r, ", ");
        push_chars(&mut r, pa);
        push_str(&mut r, ")?)");
    } else {
        push_str(&mut r, "self.query_opt(");
        push_chars(&mut r, target);
        push_str(&mut r, ", ");
        push_chars(&mut r, pa);
        push_str(&mut r, ")?.map(convert_row_");
        push_chars(&mut r, n);
        push_str(&mut r, ").transpose()");
    }
    assert(r@ =~= pg_call(shape as nat, n@, target@, pa@));
    r
}

fn wrapped(pre: &str, mid: &Vec<char>, post: &str) -> (r: Vec<char>)
    ensures
        r@ == pre@ + mid@ + post@,
{
    let mut r: Vec<char> = Vec::new();
    push_str(&mut r, pre);
    push_chars(&mut r, mid);
    push_str(&mut r, post);
    assert(r@ =~= pre@ + mid@ + post@);
    r
}


fn pg_methods_of(q: &Query) -> (r: Vec<(Vec<char>, Vec<char>)>)
    ensures
        methods_view(r@) == pg_methods(q@),
{
    let n = &q.name;
    let lit = literal_of(&pg_sql_of(q));
    let mut pd: Vec<char> = Vec::new();
    push_params_declr(&mut pd, &q.params);
    let mut pa: Vec<char> = Vec::new();
    push_pg_args(&mut pa, &q.params);
    let mut od: Vec<char> = Vec::new();
    push_outputs_declr(&mut od, &q.outputs);
    let st = crate::text::chars_of("&stmt.0");
    let rows = wrapped("Vec<(", &od, ")>");
    let one = wrapped("(", &od, ")");
    let opt = wrapped("Option<(", &od, ")>");
    let u64_ty = crate::text::chars_of("u64");

    let mut s0: Vec<char> = Vec::new();
    push_str(&mut s0, "fn prepare_");
    push_chars(&mut s0, n);
    push_str(&mut s0, "(&mut self) -> Result<Statement_");
    push_chars(&mut s0, n);
    push_str(&mut s0, ", postgres::Error>");
    let mut b0: Vec<char> = Vec::new();
    push_str(&mut b0, "self.prepare(");
    push_chars(&mut b0, &lit);
    push_str(&mut b0, ").map(Statement_");
    push_chars(&mut b0, n);
    push_str(&mut b0, ")");

    let mut s1: Vec<char> = Vec::new();
    push_str(&mut s1, "fn prepare_cached_");
    push_chars(&mut s1, n);
    push_str(&mut s1, "(&mut self, cache: &mut fnsql::cache::Cache) -> Result<Statement_");
    push_chars(&mut s1, n);
    push_str(&mut s1, ", postgres::Error>");
    let mut b1: Vec<char> = Vec::new();
    push_str(&mut b1, "cache.prepare(");
    push_chars(&mut b1, &lit);
    push_str(&mut b1, ", |q, _| self.prepare(q)).map(Statement_");
    push_chars(&mut b1, n);
    push_str(&mut b1, ")");

    let mut b2: Vec<char> = Vec::new();
    push_str(&mut b2, "self.execute(");
    push_chars(&mut b2, &lit);
    push_str(&mut b2, ", ");
    push_chars(&mut b2, &pa);
    push_str(&mut b2, ")");
    let mut b3: Vec<char> = Vec::new();
    push_str(&mut b3, "self.execute(");
    push_chars(&mut b3, &st);
    push_str(&mut b3, ", ");
    push_chars(&mut b3, &pa);
    push_str(&mut b3, ")");

    let mut r = vec![
        (s0, b0),
        (s1, b1),
        (pg_sig_of(n, "execute_", false, &pd, &u64_ty), b2),
        (pg_sig_of(n, "execute_prepared_", true, &pd, &u64_ty), b3),
        (pg_sig_of(n, "queue_", false, &pd, &rows), pg_call_of(0, n, &lit, &pa)),
        (pg_sig_of(n, "queue_prepared_", true, &pd, &rows), pg_call_of(0, n, &st, &pa)),
        (pg_sig_of(n, "queue_one_", false, &pd, &one), pg_call_of(1, n, &lit, &pa)),
        (pg_sig_of(n, "queue_one_prepared_", true, &pd, &one), pg_call_of(1, n, &st, &pa)),
        (pg_sig_of(n, "queue_opt_", false, &pd, &opt), pg_call_of(2, n, &lit, &pa)),
        (pg_sig_of(n, "queue_opt_prepared_", true, &pd, &opt), pg_call_of(2, n, &st, &pa)),
    ];
    assert(methods_view(r@) =~= pg_methods_all(q@));
    if q.outputs.len() == 0 {
        r.truncate(4);
        assert(methods_view(r@) =~= pg_methods_all(q@).subrange(0, 4));
    }
    r
}


/// The owned type that a test synthesises for a parameter of type `t`.
pub open spec fn owned_type(t: Seq<char>) -> Seq<char> {
    if t == "str"@ {
        "String"@
    } else if t == "[u8]"@ {
        "Vec<u8>"@
    } else {
        t
    }
}

/// Calls of the setup routines of `deps`, in order.
pub open spec fn setup_calls(deps: Seq<Seq<char>>) -> Seq<char> {
    concat(deps.map_values(|d: Seq<char>| "    testsetup_"@ + d + "(uns, deps, conn)?;\n"@))
}

/// A value drawn from the byte source for each parameter.
pub open spec fn arg_lets(ps: Seq<(Seq<char>, Seq<char>)>) -> Seq<char> {
    concat(
        Seq::new(
            ps.len(),
            |i: int|
                "    let i_"@ + decimal(i as nat) + ": "@ + owned_type(ps[i].1)
                    + " = arbitrary::Arbitrary::arbitrary(uns).unwrap();\n"@,
        ),
    )
}

/// `&i_0, &i_1, ...` for `n` values.
pub open spec fn arg_refs(n: nat) -> Seq<char> {
    join(Seq::new(n, |i: int| "&i_"@ + decimal(i as nat)), ", "@)
}

pub open spec fn conn_type(kind: Kind) -> Seq<char> {
    if kind == Kind::Rusqlite {
        "&rusqlite::Connection"@
    } else {
        "&mut postgres::Client"@
    }
}

pub open spec fn error_type(kind: Kind) -> Seq<char> {
    if kind == Kind::Rusqlite {
        "rusqlite::Error"@
    } else {
        "postgres::Error"@
    }
}

/// The head of a setup routine: it returns at once when its name was
/// visited, and otherwise marks it and runs the setups of `deps`.
pub open spec fn setup_head(n: Seq<char>, kind: Kind, deps: Seq<Seq<char>>) -> Seq<char> {
    "\n#[cfg(test)]\nfn testsetup_"@ + n + "(\n    uns: &mut arbitrary::Unstructured,\n    deps: &mut std::collections::HashSet<&'static str>,\n    conn: "@
        + conn_type(kind) + ",\n) -> Result<(), "@ + error_type(kind) + "> {\n    if !deps.insert(\""@ + n
        + "\") {\n        return Ok(());\n    }\n"@ + setup_calls(deps)
}

/// The rest of a setup routine: it draws the parameters, executes the
/// query, and reports a failure. The embedded backend lets a statement that
/// returned rows pass.
pub open spec fn setup_tail(n: Seq<char>, kind: Kind, ps: Seq<(Seq<char>, Seq<char>)>) -> Seq<char> {
    arg_lets(ps) + "    let r = conn.execute_"@ + n + "("@ + arg_refs(ps.len()) + ");\n    match r {\n        Ok(_) => {}\n"@
        + (if kind == Kind::Rusqlite {
        "        Err(rusqlite::Error::ExecuteReturnedResults) => {}\n"@
    } else {
        Seq::empty()
    }) + "        Err(err) => {\n            eprintln!(\"{:?}\", err);\n            return Err(err);\n        }\n    }\n    Ok(())\n}\n"@
}

/// The test entry point: a fresh connection, an empty visited set, a fixed
/// byte source, and the setup routine.
pub open spec fn test_entry(n: Seq<char>, kind: Kind) -> Seq<char> {
    "\n#[test]\nfn auto_"@ + n + "() -> Result<(), "@ + error_type(kind) + "> {\n"@ + (if kind == Kind::Rusqlite {
        "    let conn = rusqlite::Connection::open_in_memory()?;\n"@
    } else {
        "    let mut conn = postgres::Client::connect(\"user=postgres host=localhost port=5433\", postgres::NoTls).unwrap();\n    conn.execute(\"SET search_path TO pg_temp\", &[]).unwrap();\n"@
    })
        + "    let mut deps = std::collections::HashSet::new();\n    let raw_data: &[u8] = &[1, 2, 3];\n    let mut unstructured = arbitrary::Unstructured::new(raw_data);\n    testsetup_"@
        + n + "(&mut unstructured, &mut deps, "@ + (if kind == Kind::Rusqlite { "&conn"@ } else { "&mut conn"@ })
        + ")?;\n    Ok(())\n}\n"@
}

/// The generated test of `q`, if it has one.
pub open spec fn test_code(q: QuerySpec) -> Seq<char> {
    match q.test {
        None => Seq::empty(),
        Some(deps) => setup_head(q.name, q.kind, deps) + setup_tail(q.name, q.kind, q.params) + test_entry(
            q.name,
            q.kind,
        ),
    }
}

fn push_owned_type(out: &mut Vec<char>, t: &Vec<char>)
    ensures
        final(out)@ == old(out)@ + owned_type(t@),
{
    if crate::text::is_word(t, "str") {
        push_str(out, "String");
    } else if crate::text::is_word(t, "[u8]") {
        push_str(out, "Vec<u8>");
    } else {
        push_chars(out, t);
    }
}

fn push_kind_text(out: &mut Vec<char>, kind: Kind, sqlite: &str, pg: &str)
    ensures
        final(out)@ == old(out)@ + if kind == Kind::Rusqlite { sqlite@ } else { pg@ },
{
    match kind {
        Kind::Rusqlite => push_str(out, sqlite),
        Kind::PostgreSQL => push_str(out, pg),
    }
}

fn push_setup_head(out: &mut Vec<char>, n: &Vec<char>, kind: Kind, deps: &Vec<Vec<char>>)
    ensures
        final(out)@ == old(out)@ + setup_head(n@, kind, views(deps@)),
{
    let ghost start = out@;
    push_str(out, "\n#[cfg(test)]\nfn testsetup_");
    push_chars(out, n);
    push_str(out, "(\n    uns: &mut arbitrary::Unstructured,\n    deps: &mut std::collections::HashSet<&'static str>,\n    conn: ");
    push_kind_text(out, kind, "&rusqlite::Connection", "&mut postgres::Client");
    push_str(out, ",\n) -> Result<(), ");
    push_kind_text(out, kind, "rusqlite::Error", "postgres::Error");
    push_str(out, "> {\n    if !deps.insert(\"");
    push_chars(out, n);
    push_str(out, "\") {\n        return Ok(());\n    }\n");
    let ghost mid = out@;
    let ghost items = views(deps@).map_values(|d: Seq<char>| "    testsetup_"@ + d + "(uns, deps, conn)?;\n"@);
    let mut i: usize = 0;
    while i < deps.len()
        invariant
            i <= deps@.len(),
            items == views(deps@).map_values(|d: Seq<char>| "    testsetup_"@ + d + "(uns, deps, conn)?;\n"@),
            out@ == mid + concat(items.subrange(0, i as int)),
        decreases deps@.len() - i,
    {
        push_str(out, "    testsetup_");
        push_chars(out, &deps[i]);
        push_str(out, "(uns, deps, conn)?;\n");
        assert(items.subrange(0, i + 1).drop_last() =~= items.subrange(0, i as int));
        assert(out@ =~= mid + concat(items.subrange(0, i + 1)));
        i = i + 1;
    }
    assert(items.subrange(0, deps@.len() as int) =~= items);
    assert(out@ =~= start + setup_head(n@, kind, views(deps@)));
}

fn push_arg_lets(out: &mut Vec<char>, ps: &Vec<Param>)
    ensures
        final(out)@ == old(out)@ + arg_lets(params_view(ps@)),
{
    let ghost start = out@;
    let ghost pv = params_view(ps@);
    let ghost items = Seq::new(
        pv.len(),
        |i: int|
            "    let i_"@ + decimal(i as nat) + ": "@ + owned_type(pv[i].1)
                + " = arbitrary::Arbitrary::arbitrary(uns).unwrap();\n"@,
    );
    let mut i: usize = 0;
    while i < ps.len()
        invariant
            i <= ps@.len(),
            pv == params_view(ps@),
            items == Seq::new(
                pv.len(),
                |i: int|
                    "    let i_"@ + decimal(i as nat) + ": "@ + owned_type(pv[i].1)
                        + " = arbitrary::Arbitrary::arbitrary(uns).unwrap();\n"@,
            ),
            out@ == start + concat(items.subrange(0, i as int)),
        decreases ps@.len() - i,
    {
        push_str(out, "    let i_");
        push_decimal(out, i);
        push_str(out, ": ");
        push_owned_type(out, &ps[i].ty);
        push_str(out, " = arbitrary::Arbitrary::arbitrary(uns).unwrap();\n");
        assert(items.subrange(0, i + 1).drop_last() =~= items.subrange(0, i as int));
        assert(out@ =~= start + concat(items.subrange(0, i + 1)));
        i = i + 1;
    }
    assert(items.subrange(0, ps@.len() as int) =~= items);
}

fn push_arg_refs(out: &mut Vec<char>, n: usize)
    ensures
        final(out)@ == old(out)@ + arg_refs(n as nat),
{
    let ghost start = out@;
    let ghost items = Seq::new(n as nat, |i: int| "&i_"@ + decimal(i as nat));
    let mut i: usize = 0;
    while i < n
        invariant
            i <= n,
            items == Seq::new(n as nat, |i: int| "&i_"@ + decimal(i as nat)),
            out@ == start + join(items.subrange(0, i as int), ", "@),
        decreases n - i,
    {
        if i > 0 {
            push_str(out, ", ");
        }
        push_str(out, "&i_");
        push_decimal(out, i);
        proof {
            lemma_join_step(items, ", "@, i as int);
        }
        assert(out@ =~= start + join(items.subrange(0, i + 1), ", "@));
        i = i + 1;
    }
    assert(items.subrange(0, n as int) =~= items);
}

fn push_setup_tail(out: &mut Vec<char>, n: &Vec<char>, kind: Kind, ps: &Vec<Param>)
    ensures
        final(out)@ == old(out)@ + setup_tail(n@, kind, params_view(ps@)),
{
    let ghost start = out@;
    push_arg_lets(out, ps);
    push_str(out, "    let r = conn.execute_");
    push_chars(out, n);
    push_str(out, "(");
    push_arg_refs(out, ps.len());
    push_str(out, ");\n    match r {\n        Ok(_) => {}\n");
    let ghost mid = out@;
    if kind == Kind::Rusqlite {
        push_str(out, "        Err(rusqlite::Error::ExecuteReturnedResults) => {}\n");
    }
    assert(out@ =~= mid + (if kind == Kind::Rusqlite {
        "        Err(rusqlite::Error::ExecuteReturnedResults) => {}\n"@
    } else {
        Seq::empty()
    }));
    push_str(out, "        Err(err) => {\n            eprintln!(\"{:?}\", err);\n            return Err(err);\n        }\n    }\n    Ok(())\n}\n");
    assert(out@ =~= start + setup_tail(n@, kind, params_view(ps@)));
}

fn push_test_entry(out: &mut Vec<char>, n: &Vec<char>, kind: Kind)
    ensures
        final(out)@ == old(out)@ + test_entry(n@, kind),
{
    let ghost start = out@;
    push_str(out, "\n#[test]\nfn auto_");
    push_chars(out, n);
    push_str(out, "() -> Result<(), ");
    push_kind_text(out, kind, "rusqlite::Error", "postgres::Error");
    push_str(out, "> {\n");
    push_kind_text(
        out,
        kind,
        "    let conn = rusqlite::Connection::open_in_memory()?;\n",
        "    let mut conn = postgres::Client::connect(\"user=postgres host=localhost port=5433\", postgres::NoTls).unwrap();\n    conn.execute(\"SET search_path TO pg_temp\", &[]).unwrap();\n",
    );
    push_str(out, "    let mut deps = std::collections::HashSet::new();\n    let raw_data: &[u8] = &[1, 2, 3];\n    let mut unstructured = arbitrary::Unstructured::new(raw_data);\n    testsetup_");
    push_chars(out, n);
    push_str(out, "(&mut unstructured, &mut deps, ");
    push_kind_text(out, kind, "&conn", "&mut conn");
    push_str(out, ")?;\n    Ok(())\n}\n");
    assert(out@ =~= start + test_entry(n@, kind));
}

fn push_test_code(out: &mut Vec<char>, q: &Query)
    ensures
        final(out)@ == old(out)@ + test_code(q@),
{
    match &q.test {
        None => {
            assert(out@ =~= out@ + test_code(q@));
        },
        Some(deps) => {
            let ghost start = out@;
            push_setup_head(out, &q.name, q.kind, deps);
            push_setup_tail(out, &q.name, q.kind, &q.params);
            push_test_entry(out, &q.name, q.kind);
            assert(out@ =~= start + test_code(q@));
        },
    }
}


/// The statement type of the network backend and its trait of methods.
pub open spec fn pg_head(n: Seq<char>, ms: Seq<(Seq<char>, Seq<char>)>) -> Seq<char> {
    "#[allow(non_camel_case_types)]\npub struct Statement_"@
        + n
        + "(pub postgres::Statement);\n\n#[allow(non_camel_case_types)]\npub trait Client_"@
        + n
        + " {\n"@
        + decls(ms)
        + "}\n"@
}

fn push_pg_head(out: &mut Vec<char>, n: &Vec<char>, ms: &Vec<(Vec<char>, Vec<char>)>)
    ensures
        final(out)@ == old(out)@ + pg_head(n@, methods_view(ms@)),
{
    let ghost start = out@;
    push_str(out, "#[allow(non_camel_case_types)]\npub struct Statement_");
    push_chars(out, n);
    push_str(out, "(pub postgres::Statement);\n\n#[allow(non_camel_case_types)]\npub trait Client_");
    push_chars(out, n);
    push_str(out, " {\n");
    push_decls(out, ms);
    push_str(out, "}\n");
    assert(out@ =~= start + pg_head(n@, methods_view(ms@)));
}

/// The conversion of a row to the declared outputs.
pub open spec fn pg_convert(n: Seq<char>, od: Seq<char>, rg: Seq<char>) -> Seq<char> {
    "\npub fn convert_row_"@
        + n
        + "(row: postgres::Row) -> Result<("@
        + od
        + "), postgres::Error> {\n    Ok(("@
        + rg
        + "))\n}\n"@
}

fn push_pg_convert(out: &mut Vec<char>, n: &Vec<char>, od: &Vec<char>, rg: &Vec<char>)
    ensures
        final(out)@ == old(out)@ + pg_convert(n@, od@, rg@),
{
    let ghost start = out@;
    push_str(out, "\npub fn convert_row_");
    push_chars(out, n);
    push_str(out, "(row: postgres::Row) -> Result<(");
    push_chars(out, od);
    push_str(out, "), postgres::Error> {\n    Ok((");
    push_chars(out, rg);
    push_str(out, "))\n}\n");
    assert(out@ =~= start + pg_convert(n@, od@, rg@));
}

/// The trait implemented for a client and for a transaction.
pub open spec fn pg_impls(n: Seq<char>, ms: Seq<(Seq<char>, Seq<char>)>) -> Seq<char> {
    "\nimpl Client_"@
        + n
        + " for postgres::Client {\n"@
        + defs(ms)
        + "}\n\nimpl<'a> Client_"@
        + n
        + " for postgres::Transaction<'a> {\n"@
        + defs(ms)
        + "}\n"@
}

fn push_pg_impls(out: &mut Vec<char>, n: &Vec<char>, ms: &Vec<(Vec<char>, Vec<char>)>)
    ensures
        final(out)@ == old(out)@ + pg_impls(n@, methods_view(ms@)),
{
    let ghost start = out@;
    push_str(out, "\nimpl Client_");
    push_chars(out, n);
    push_str(out, " for postgres::Client {\n");
    push_defs(out, ms);
    push_str(out, "}\n\nimpl<'a> Client_");
    push_chars(out, n);
    push_str(out, " for postgres::Transaction<'a> {\n");
    push_defs(out, ms);
    push_str(out, "}\n");
    assert(out@ =~= start + pg_impls(n@, methods_view(ms@)));
}

/// The row sequences of the embedded backend: mapped through a closure,
/// or as tuples of the declared outputs.
pub open spec fn rows_types(n: Seq<char>, od: Seq<char>, rg: Seq<char>) -> Seq<char> {
    "\n#[allow(non_camel_case_types)]\npub struct MappedRows_"@
        + n
        + "<'stmt, F> {\n    rows: rusqlite::Rows<'stmt>,\n    map: F,\n}\n\nimpl<'stmt, T, F> Iterator for MappedRows_"@
        + n
        + "<'stmt, F>\nwhere\n    F: FnMut("@
        + od
        + ") -> T,\n{\n    type Item = rusqlite::Result<T>;\n\n    fn next(&mut self) -> Option<rusqlite::Result<T>> {\n        let map = &mut self.map;\n        self.rows.next().transpose().map(|row_result| row_result.and_then(|row| Ok(map("@
        + rg
        + "))))\n    }\n}\n\n#[allow(non_camel_case_types)]\npub struct Rows_"@
        + n
        + "<'stmt> {\n    rows: rusqlite::Rows<'stmt>,\n}\n\nimpl<'stmt> Iterator for Rows_"@
        + n
        + "<'stmt> {\n    type Item = rusqlite::Result<("@
        + od
        + ")>;\n\n    fn next(&mut self) -> Option<Self::Item> {\n        self.rows.next().transpose().map(|row_result| row_result.and_then(|row| Ok(("@
        + rg
        + "))))\n    }\n}\n"@
}

fn push_rows_types(out: &mut Vec<char>, n: &Vec<char>, od: &Vec<char>, rg: &Vec<char>)
    ensures
        final(out)@ == old(out)@ + rows_types(n@, od@, rg@),
{
    let ghost start = out@;
    push_str(out, "\n#[allow(non_camel_case_types)]\npub struct MappedRows_");
    push_chars(out, n);
    push_str(out, "<'stmt, F> {\n    rows: rusqlite::Rows<'stmt>,\n    map: F,\n}\n\nimpl<'stmt, T, F> Iterator for MappedRows_");
    push_chars(out, n);
    push_str(out, "<'stmt, F>\nwhere\n    F: FnMut(");
    push_chars(out, od);
    push_str(out, ") -> T,\n{\n    type Item = rusqlite::Result<T>;\n\n    fn next(&mut self) -> Option<rusqlite::Result<T>> {\n        let map = &mut self.map;\n        self.rows.next().transpose().map(|row_result| row_result.and_then(|row| Ok(map(");
    push_chars(out, rg);
    push_str(out, "))))\n    }\n}\n\n#[allow(non_camel_case_types)]\npub struct Rows_");
    push_chars(out, n);
    push_str(out, "<'stmt> {\n    rows: rusqlite::Rows<'stmt>,\n}\n\nimpl<'stmt> Iterator for Rows_");
    push_chars(out, n);
    push_str(out, "<'stmt> {\n    type Item = rusqlite::Result<(");
    push_chars(out, od);
    push_str(out, ")>;\n\n    fn next(&mut self) -> Option<Self::Item> {\n        self.rows.next().transpose().map(|row_result| row_result.and_then(|row| Ok((");
    push_chars(out, rg);
    push_str(out, "))))\n    }\n}\n");
    assert(out@ =~= start + rows_types(n@, od@, rg@));
}

/// A statement type of the embedded backend, named `w` + the query's name,
/// around `inner`, and the start of its methods.
pub open spec fn wrapper_head(n: Seq<char>, w: Seq<char>, inner: Seq<char>) -> Seq<char> {
    "\n#[allow(non_camel_case_types)]\npub struct "@
        + w
        + n
        + "<'a>(pub "@
        + inner
        + "<'a>);\n\nimpl<'a> "@
        + w
        + n
        + "<'a> {\n"@
}

fn push_wrapper_head(out: &mut Vec<char>, n: &Vec<char>, w: &str, inner: &str)
    ensures
        final(out)@ == old(out)@ + wrapper_head(n@, w@, inner@),
{
    let ghost start = out@;
    push_str(out, "\n#[allow(non_camel_case_types)]\npub struct ");
    push_str(out, w);
    push_chars(out, n);
    push_str(out, "<'a>(pub ");
    push_str(out, inner);
    push_str(out, "<'a>);\n\nimpl<'a> ");
    push_str(out, w);
    push_chars(out, n);
    push_str(out, "<'a> {\n");
    assert(out@ =~= start + wrapper_head(n@, w@, inner@));
}

/// The row-returning methods of a statement type: `query_map`,
/// `query_row` and `query`.
pub open spec fn wrapper_rows(n: Seq<char>, pd: Seq<char>, od: Seq<char>, sa: Seq<char>, rl: Seq<char>) -> Seq<char> {
    "    pub fn query_map<F, T>(&mut self"@
        + pd
        + ", f: F) -> rusqlite::Result<MappedRows_"@
        + n
        + "<'_, F>>\n    where\n        F: FnMut("@
        + od
        + ") -> T,\n    {\n        let rows = self.0.query("@
        + sa
        + ")?;\n        Ok(MappedRows_"@
        + n
        + " { rows, map: f })\n    }\n\n    pub fn query_row<F, T>(&mut self"@
        + pd
        + ", f: F) -> rusqlite::Result<T>\n    where\n        F: FnMut("@
        + od
        + ") -> T,\n    {\n        let mut rows = self.query_map("@
        + rl
        + "f)?;\n        match rows.next() {\n            Some(item) => item,\n            None => Err(rusqlite::Error::QueryReturnedNoRows),\n        }\n    }\n\n    pub fn query(&mut self"@
        + pd
        + ") -> rusqlite::Result<Rows_"@
        + n
        + "<'_>> {\n        let rows = self.0.query("@
        + sa
        + ")?;\n        Ok(Rows_"@
        + n
        + " { rows })\n    }\n\n"@
}

fn push_wrapper_rows(out: &mut Vec<char>, n: &Vec<char>, pd: &Vec<char>, od: &Vec<char>, sa: &Vec<char>, rl: &Vec<char>)
    ensures
        final(out)@ == old(out)@ + wrapper_rows(n@, pd@, od@, sa@, rl@),
{
    let ghost start = out@;
    push_str(out, "    pub fn query_map<F, T>(&mut self");
    push_chars(out, pd);
    push_str(out, ", f: F) -> rusqlite::Result<MappedRows_");
    push_chars(out, n);
    push_str(out, "<'_, F>>\n    where\n        F: FnMut(");
    push_chars(out, od);
    push_str(out, ") -> T,\n    {\n        let rows = self.0.query(");
    push_chars(out, sa);
    push_str(out, ")?;\n        Ok(MappedRows_");
    push_chars(out, n);
    push_str(out, " { rows, map: f })\n    }\n\n    pub fn query_row<F, T>(&mut self");
    push_chars(out, pd);
    push_str(out, ", f: F) -> rusqlite::Result<T>\n    where\n        F: FnMut(");
    push_chars(out, od);
    push_str(out, ") -> T,\n    {\n        let mut rows = self.query_map(");
    push_chars(out, rl);
    push_str(out, "f)?;\n        match rows.next() {\n            Some(item) => item,\n            None => Err(rusqlite::Error::QueryReturnedNoRows),\n        }\n    }\n\n    pub fn query(&mut self");
    push_chars(out, pd);
    push_str(out, ") -> rusqlite::Result<Rows_");
    push_chars(out, n);
    push_str(out, "<'_>> {\n        let rows = self.0.query(");
    push_chars(out, sa);
    push_str(out, ")?;\n        Ok(Rows_");
    push_chars(out, n);
    push_str(out, " { rows })\n    }\n\n");
    assert(out@ =~= start + wrapper_rows(n@, pd@, od@, sa@, rl@));
}

/// The `execute` method of a statement type, and the end of its methods.
pub open spec fn wrapper_execute(pd: Seq<char>, sa: Seq<char>) -> Seq<char> {
    "    pub fn execute(&mut self"@
        + pd
        + ") -> rusqlite::Result<usize> {\n        self.0.execute("@
        + sa
        + ")\n    }\n}\n"@
}

fn push_wrapper_execute(out: &mut Vec<char>, pd: &Vec<char>, sa: &Vec<char>)
    ensures
        final(out)@ == old(out)@ + wrapper_execute(pd@, sa@),
{
    let ghost start = out@;
    push_str(out, "    pub fn execute(&mut self");
    push_chars(out, pd);
    push_str(out, ") -> rusqlite::Result<usize> {\n        self.0.execute(");
    push_chars(out, sa);
    push_str(out, ")\n    }\n}\n");
    assert(out@ =~= start + wrapper_execute(pd@, sa@));
}

/// The connection trait of the embedded backend and its implementation.
pub open spec fn sqlite_conn(n: Seq<char>, ms: Seq<(Seq<char>, Seq<char>)>) -> Seq<char> {
    "#[allow(non_camel_case_types)]\npub trait Connection_"@
        + n
        + " {\n"@
        + decls(ms)
        + "}\n\nimpl Connection_"@
        + n
        + " for rusqlite::Connection {\n"@
        + defs(ms)
        + "}\n"@
}

fn push_sqlite_conn(out: &mut Vec<char>, n: &Vec<char>, ms: &Vec<(Vec<char>, Vec<char>)>)
    ensures
        final(out)@ == old(out)@ + sqlite_conn(n@, methods_view(ms@)),
{
    let ghost start = out@;
    push_str(out, "#[allow(non_camel_case_types)]\npub trait Connection_");
    push_chars(out, n);
    push_str(out, " {\n");
    push_decls(out, ms);
    push_str(out, "}\n\nimpl Connection_");
    push_chars(out, n);
    push_str(out, " for rusqlite::Connection {\n");
    push_defs(out, ms);
    push_str(out, "}\n");
    assert(out@ =~= start + sqlite_conn(n@, methods_view(ms@)));
}

/// The headers and bodies of the connection methods of the embedded
/// backend: `query_row_` only when `q` declares outputs.
pub open spec fn sqlite_methods(q: QuerySpec) -> Seq<(Seq<char>, Seq<char>)> {
    if q.outputs.len() == 0 {
        sqlite_methods_all(q).subrange(0, 3)
    } else {
        sqlite_methods_all(q)
    }
}

/// The headers and bodies of all connection methods of the embedded backend.
pub open spec fn sqlite_methods_all(q: QuerySpec) -> Seq<(Seq<char>, Seq<char>)> {
    let n = q.name;
    let lit = literal(q.sql);
    let pd = params_declr(q.params);
    seq![
        (
            "fn prepare_"@ + n + "(&self) -> rusqlite::Result<Statement_"@ + n + "<'_>>"@,
            "self.prepare("@ + lit + ").map(Statement_"@ + n + ")"@,
        ),
        (
            "fn prepare_cached_"@ + n + "(&self) -> rusqlite::Result<CachedStatement_"@ + n + "<'_>>"@,
            "self.prepare_cached("@ + lit + ").map(CachedStatement_"@ + n + ")"@,
        ),
        (
            "fn execute_"@ + n + "(&self"@ + pd + ") -> rusqlite::Result<usize>"@,
            "self.execute("@ + lit + ", "@ + sqlite_args(q.params) + ")"@,
        ),
        (
            "fn query_row_"@ + n + "<F, T>(&self"@ + pd + ", f: F) -> rusqlite::Result<T>\n    where\n        F: FnMut("@
                + outputs_declr(q.outputs) + ") -> T"@,
            "let mut stmt = self.prepare_"@ + n + "()?;\n        stmt.query_row("@ + relay(q.params) + "f)"@,
        ),
    ]
}

fn sqlite_methods_of(q: &Query) -> (r: Vec<(Vec<char>, Vec<char>)>)
    ensures
        methods_view(r@) == sqlite_methods(q@),
{
    let n = &q.name;
    let lit = literal_of(&q.sql);
    let mut pd: Vec<char> = Vec::new();
    push_params_declr(&mut pd, &q.params);

    let mut s0: Vec<char> = Vec::new();
    push_str(&mut s0, "fn prepare_");
    push_chars(&mut s0, n);
    push_str(&mut s0, "(&self) -> rusqlite::Result<Statement_");
    push_chars(&mut s0, n);
    push_str(&mut s0, "<'_>>");
    let mut b0: Vec<char> = Vec::new();
    push_str(&mut b0, "self.prepare(");
    push_chars(&mut b0, &lit);
    push_str(&mut b0, ").map(Statement_");
    push_chars(&mut b0, n);
    push_str(&mut b0, ")");

    let mut s1: Vec<char> = Vec::new();
    push_str(&mut s1, "fn prepare_cached_");
    push_chars(&mut s1, n);
    push_str(&mut s1, "(&self) -> rusqlite::Result<CachedStatement_");
    push_chars(&mut s1, n);
    push_str(&mut s1, "<'_>>");
    let mut b1: Vec<char> = Vec::new();
    push_str(&mut b1, "self.prepare_cached(");
    push_chars(&mut b1, &lit);
    push_str(&mut b1, ").map(CachedStatement_");
    push_chars(&mut b1, n);
    push_str(&mut b1, ")");

    let mut s2: Vec<char> = Vec::new();
    push_str(&mut s2, "fn execute_");
    push_chars(&mut s2, n);
    push_str(&mut s2, "(&self");
    push_chars(&mut s2, &pd);
    push_str(&mut s2, ") -> rusqlite::Result<usize>");
    let mut b2: Vec<char> = Vec::new();
    push_str(&mut b2, "self.execute(");
    push_chars(&mut b2, &lit);
    push_str(&mut b2, ", ");
    push_sqlite_args(&mut b2, &q.params);
    push_str(&mut b2, ")");

    let mut s3: Vec<char> = Vec::new();
    push_str(&mut s3, "fn query_row_");
    push_chars(&mut s3, n);
    push_str(&mut s3, "<F, T>(&self");
    push_chars(&mut s3, &pd);
    push_str(&mut s3, ", f: F) -> rusqlite::Result<T>\n    where\n        F: FnMut(");
    push_outputs_declr(&mut s3, &q.outputs);
    push_str(&mut s3, ") -> T");
    let mut b3: Vec<char> = Vec::new();
    push_str(&mut b3, "let mut stmt = self.prepare_");
    push_chars(&mut b3, n);
    push_str(&mut b3, "()?;\n        stmt.query_row(");
    push_relay(&mut b3, &q.params);
    push_str(&mut b3, "f)");

    let mut r = vec![(s0, b0), (s1, b1), (s2, b2), (s3, b3)];
    assert(methods_view(r@) =~= sqlite_methods_all(q@));
    if q.outputs.len() == 0 {
        r.truncate(3);
        assert(methods_view(r@) =~= sqlite_methods_all(q@).subrange(0, 3));
    }
    r
}

/// The network-backend layer of `q`, with its test: the row conversion
/// only when `q` declares outputs.
pub open spec fn pg_expand(q: QuerySpec) -> Seq<char> {
    pg_head(q.name, pg_methods(q)) + (if q.outputs.len() == 0 {
        Seq::empty()
    } else {
        pg_convert(q.name, outputs_declr(q.outputs), row_gets("try_get"@, q.outputs.len()))
    }) + pg_impls(q.name, pg_methods(q)) + test_code(q)
}

/// A statement type of the embedded backend: with the row-returning
/// methods only when there are outputs.
pub open spec fn stmt_wrapper(
    n: Seq<char>,
    w: Seq<char>,
    inner: Seq<char>,
    has_rows: bool,
    pd: Seq<char>,
    od: Seq<char>,
    sa: Seq<char>,
    rl: Seq<char>,
) -> Seq<char> {
    wrapper_head(n, w, inner) + (if has_rows { wrapper_rows(n, pd, od, sa, rl) } else { Seq::empty() })
        + wrapper_execute(pd, sa)
}

fn push_stmt_wrapper(
    out: &mut Vec<char>,
    n: &Vec<char>,
    w: &str,
    inner: &str,
    has_rows: bool,
    pd: &Vec<char>,
    od: &Vec<char>,
    sa: &Vec<char>,
    rl: &Vec<char>,
)
    ensures
        final(out)@ == old(out)@ + stmt_wrapper(n@, w@, inner@, has_rows, pd@, od@, sa@, rl@),
{
    let ghost start = out@;
    push_wrapper_head(out, n, w, inner);
    let ghost mid = out@;
    if has_rows {
        push_wrapper_rows(out, n, pd, od, sa, rl);
    }
    assert(out@ =~= mid + if has_rows { wrapper_rows(n@, pd@, od@, sa@, rl@) } else { Seq::empty() });
    push_wrapper_execute(out, pd, sa);
    assert(out@ =~= start + stmt_wrapper(n@, w@, inner@, has_rows, pd@, od@, sa@, rl@));
}

/// The row sequences (when there are outputs) and the two statement types
/// of the embedded backend.
pub open spec fn sqlite_statements(
    n: Seq<char>,
    has_rows: bool,
    pd: Seq<char>,
    od: Seq<char>,
    sa: Seq<char>,
    rl: Seq<char>,
    rg: Seq<char>,
) -> Seq<char> {
    (if has_rows { rows_types(n, od, rg) } else { Seq::empty() }) + stmt_wrapper(
        n,
        "Statement_"@,
        "rusqlite::Statement"@,
        has_rows,
        pd,
        od,
        sa,
        rl,
    ) + stmt_wrapper(n, "CachedStatement_"@, "rusqlite::CachedStatement"@, has_rows, pd, od, sa, rl)
}

fn push_sqlite_statements(
    out: &mut Vec<char>,
    n: &Vec<char>,
    has_rows: bool,
    pd: &Vec<char>,
    od: &Vec<char>,
    sa: &Vec<char>,
    rl: &Vec<char>,
    rg: &Vec<char>,
)
    ensures
        final(out)@ == old(out)@ + sqlite_statements(n@, has_rows, pd@, od@, sa@, rl@, rg@),
{
    let ghost start = out@;
    if has_rows {
        push_rows_types(out, n, od, rg);
    }
    let ghost mid = out@;
    assert(mid =~= start + if has_rows { rows_types(n@, od@, rg@) } else { Seq::empty() });
    push_stmt_wrapper(out, n, "Statement_", "rusqlite::Statement", has_rows, pd, od, sa, rl);
    push_stmt_wrapper(out, n, "CachedStatement_", "rusqlite::CachedStatement", has_rows, pd, od, sa, rl);
    assert(out@ =~= start + sqlite_statements(n@, has_rows, pd@, od@, sa@, rl@, rg@));
}

/// The embedded-backend layer of `q`, with its test.
pub open spec fn sqlite_expand(q: QuerySpec) -> Seq<char> {
    let n = q.name;
    let pd = params_declr(q.params);
    let od = outputs_declr(q.outputs);
    let sa = sqlite_args(q.params);
    let rl = relay(q.params);
    sqlite_conn(n, sqlite_methods(q)) + sqlite_statements(n, q.outputs.len() > 0, pd, od, sa, rl, row_gets("get"@, q.outputs.len()))
        + test_code(q)
}

/// The layer that `q` generates, for its backend.
#[verifier::opaque]
pub open spec fn expand(q: QuerySpec) -> Seq<char> {
    match q.kind {
        Kind::Rusqlite => sqlite_expand(q),
        Kind::PostgreSQL => pg_expand(q),
    }
}

fn push_pg_expand(out: &mut Vec<char>, q: &Query)
    ensures
        final(out)@ == old(out)@ + pg_expand(q@),
{
    let ghost start = out@;
    let ms = pg_methods_of(q);
    let mut od: Vec<char> = Vec::new();
    push_outputs_declr(&mut od, &q.outputs);
    let mut rg: Vec<char> = Vec::new();
    push_row_gets(&mut rg, "try_get", q.outputs.len());
    push_pg_head(out, &q.name, &ms);
    let ghost mid = out@;
    if q.outputs.len() > 0 {
        push_pg_convert(out, &q.name, &od, &rg);
    }
    assert(out@ =~= mid + if q@.outputs.len() == 0 {
        Seq::empty()
    } else {
        pg_convert(q@.name, outputs_declr(q@.outputs), row_gets("try_get"@, q@.outputs.len()))
    });
    push_pg_impls(out, &q.name, &ms);
    push_test_code(out, q);
    assert(out@ =~= start + pg_expand(q@));
}

fn push_sqlite_expand(out: &mut Vec<char>, q: &Query)
    ensures
        final(out)@ == old(out)@ + sqlite_expand(q@),
{
    let ghost start = out@;
    let ms = sqlite_methods_of(q);
    let mut pd: Vec<char> = Vec::new();
    push_params_declr(&mut pd, &q.params);
    let mut od: Vec<char> = Vec::new();
    push_outputs_declr(&mut od, &q.outputs);
    let mut sa: Vec<char> = Vec::new();
    push_sqlite_args(&mut sa, &q.params);
    let mut rl: Vec<char> = Vec::new();
    push_relay(&mut rl, &q.params);
    let mut rg: Vec<char> = Vec::new();
    push_row_gets(&mut rg, "get", q.outputs.len());
    push_sqlite_conn(out, &q.name, &ms);
    push_sqlite_statements(out, &q.name, q.outputs.len() > 0, &pd, &od, &sa, &rl, &rg);
    push_test_code(out, q);
    assert(out@ =~= start + sqlite_expand(q@));
}

/// Appends the layer that `q` generates.
pub fn push_expand(out: &mut Vec<char>, q: &Query)
    ensures
        final(out)@ == old(out)@ + expand(q@),
{
    reveal(expand);
    match q.kind {
        Kind::Rusqlite => push_sqlite_expand(out, q),
        Kind::PostgreSQL => push_pg_expand(out, q),
    }
}

/// The layers of the queries, one after the other.
pub open spec fn expand_all(qs: Seq<QuerySpec>) -> Seq<char> {
    concat(qs.map_values(|q: QuerySpec| expand(q)))
}

/// The source text for `queries`, once every test dependency names a
/// test-flagged query; otherwise the first one that does not.
pub fn generate(queries: &Vec<Query>) -> (r: Result<Vec<char>, crate::resolve::ResolveError>)
    ensures
        match r {
            Ok(text) => crate::resolve::graph_spec(queries_view(queries@)) is Ok && text@ == expand_all(
                queries_view(queries@),
            ),
            Err(e) => crate::resolve::graph_spec(queries_view(queries@)) == Err::<Seq<Seq<usize>>, _>(e),
        },
{
    let _graph = crate::resolve::dependency_graph(queries)?;
    let mut out: Vec<char> = Vec::new();
    let ghost items = queries_view(queries@).map_values(|q: QuerySpec| expand(q));
    let mut i: usize = 0;
    while i < queries.len()
        invariant
            i <= queries@.len(),
            items == queries_view(queries@).map_values(|q: QuerySpec| expand(q)),
            out@ == concat(items.subrange(0, i as int)),
        decreases queries@.len() - i,
    {
        push_expand(&mut out, &queries[i]);
        assert(items.subrange(0, i + 1).drop_last() =~= items.subrange(0, i as int));
        i = i + 1;
    }
    assert(items.subrange(0, queries@.len() as int) =~= items);
    Ok(out)
}

} // verus!
