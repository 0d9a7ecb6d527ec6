//! Rendering of metric families in the text exposition format: per family
//! a `# HELP` and a `# TYPE` line followed by one line per series,
//! `name{label="value",...} value`.  Families without series are not
//! emitted; an empty label set renders as `name value`.  Label values have
//! backslash, double quote and newline escaped.

use crate::family::Family;
use crate::sample::SampleValue;
use crate::sample::push_value;
use crate::strutil::push_char;
use vstd::prelude::*;
use vstd::string::StrSliceExecFns;
use vstd::string::StringExecFns;

verus! {

/// A label value character as it is written: backslash, double quote and
/// newline escaped, anything else as itself.
pub open spec fn esc_char(c: char) -> Seq<char> {
    if c == '\\' {
        seq!['\\', '\\']
    } else if c == '"' {
        seq!['\\', '"']
    } else if c == '\n' {
        seq!['\\', 'n']
    } else {
        seq![c]
    }
}

pub open spec fn escape_prefix(s: Seq<char>, n: int) -> Seq<char>
    decreases n,
{
    if n <= 0 {
        Seq::empty()
    } else {
        escape_prefix(s, n - 1) + esc_char(s[n - 1])
    }
}

/// A label value with every character escaped as written.
pub open spec fn escape_chars(s: Seq<char>) -> Seq<char> {
    escape_prefix(s, s.len() as int)
}

fn push_escaped(out: &mut String, s: &String)
    ensures
        final(out)@ == old(out)@ + escape_chars(s@),
{
    let st = s.as_str();
    let n = st.unicode_len();
    let mut i: usize = 0;
    proof {
        assert(old(out)@ + escape_prefix(s@, 0) =~= old(out)@);
    }
    while i < n
        invariant
            i <= n,
            n as nat == s@.len(),
            st@ == s@,
            out@ == old(out)@ + escape_prefix(s@, i as int),
        decreases n - i,
    {
        let c = st.get_char(i);
        if c == '\\' {
            push_char(out, '\\');
            push_char(out, '\\');
        } else if c == '"' {
            push_char(out, '\\');
            push_char(out, '"');
        } else if c == '\n' {
            push_char(out, '\\');
            push_char(out, 'n');
        } else {
            push_char(out, c);
        }
        proof {
            assert(out@ =~= old(out)@ + escape_prefix(s@, i + 1));
        }
        i += 1;
    }
}

/// One `label="value"` pair, with a separating comma before every pair
/// but the first.
pub open spec fn pair_chars(name: Seq<char>, value: Seq<char>, first: bool) -> Seq<char> {
    (if first {
        Seq::<char>::empty()
    } else {
        ","@
    }) + name + "=\""@ + escape_chars(value) + "\""@
}

pub open spec fn pairs_prefix(names: Seq<Seq<char>>, vals: Seq<Seq<char>>, n: int) -> Seq<char>
    decreases n,
{
    if n <= 0 {
        Seq::empty()
    } else {
        pairs_prefix(names, vals, n - 1) + pair_chars(names[n - 1], vals[n - 1], n == 1)
    }
}

/// The braced label block of one series; an empty label set renders as
/// nothing at all.
pub open spec fn label_block_chars(names: Seq<Seq<char>>, vals: Seq<Seq<char>>) -> Seq<char> {
    if names.len() == 0 {
        Seq::empty()
    } else {
        "{"@ + pairs_prefix(names, vals, names.len() as int) + "}"@
    }
}

fn push_labels(out: &mut String, names: &Vec<String>, vals: &Vec<String>)
    requires
        vals@.len() == names@.len(),
    ensures
        final(out)@ == old(out)@ + label_block_chars(names.deep_view(), vals.deep_view()),
{
    if names.len() == 0 {
        proof {
            assert(names.deep_view().len() == 0);
            assert(old(out)@ + label_block_chars(names.deep_view(), vals.deep_view()) =~= old(
                out,
            )@);
        }
        return ;
    }
    out.append("{");
    proof {
        assert(out@ =~= old(out)@ + "{"@ + pairs_prefix(names.deep_view(), vals.deep_view(), 0));
    }
    let mut j: usize = 0;
    while j < names.len()
        invariant
            j <= names.len(),
            vals@.len() == names@.len(),
            out@ == old(out)@ + "{"@ + pairs_prefix(names.deep_view(), vals.deep_view(), j as int),
        decreases names.len() - j,
    {
        if j > 0 {
            out.append(",");
        }
        out.append(names[j].as_str());
        out.append("=\"");
        push_escaped(out, &vals[j]);
        out.append("\"");
        proof {
            assert(names.deep_view()[j as int] == names@[j as int]@);
            assert(vals.deep_view()[j as int] == vals@[j as int]@);
            assert(out@ =~= old(out)@ + "{"@ + pairs_prefix(
                names.deep_view(),
                vals.deep_view(),
                j + 1,
            ));
        }
        j += 1;
    }
    out.append("}");
    proof {
        assert(out@ =~= old(out)@ + label_block_chars(names.deep_view(), vals.deep_view()));
    }
}

/// One series line: the family name, the label block, a space, the value,
/// and a newline.
pub open spec fn row_chars(
    fname: Seq<char>,
    names: Seq<Seq<char>>,
    row: (Seq<Seq<char>>, SampleValue),
) -> Seq<char> {
    fname + label_block_chars(names, row.0) + " "@ + row.1.chars() + "\n"@
}

fn push_row(
    out: &mut String,
    fname: &String,
    names: &Vec<String>,
    labels: &Vec<String>,
    v: &SampleValue,
)
    requires
        v.wf(),
        labels@.len() == names@.len(),
    ensures
        final(out)@ == old(out)@ + row_chars(fname@, names.deep_view(), (labels.deep_view(), *v)),
{
    out.append(fname.as_str());
    push_labels(out, names, labels);
    out.append(" ");
    push_value(out, v);
    out.append("\n");
    proof {
        assert(out@ =~= old(out)@ + row_chars(
            fname@,
            names.deep_view(),
            (labels.deep_view(), *v),
        ));
    }
}

/// The two comment lines that precede a family's series.
pub open spec fn family_header_chars(f: Family) -> Seq<char> {
    "# HELP "@ + f.name@ + " "@ + f.help@ + "\n"@ + "# TYPE "@ + f.name@ + " "@ + (if f.counter {
        "counter"@
    } else {
        "gauge"@
    }) + "\n"@
}

pub open spec fn rows_prefix(f: Family, n: int) -> Seq<char>
    decreases n,
{
    if n <= 0 {
        Seq::empty()
    } else {
        rows_prefix(f, n - 1) + row_chars(f.name@, f.label_names.deep_view(), f.rows()[n - 1])
    }
}

/// The rendered form of one family: nothing when it has no series, else
/// its header lines followed by one line per series in insertion order.
pub open spec fn family_chars(f: Family) -> Seq<char> {
    if f.rows().len() == 0 {
        Seq::empty()
    } else {
        family_header_chars(f) + rows_prefix(f, f.rows().len() as int)
    }
}

/// Appends the rendered form of a family.
pub fn push_family(out: &mut String, f: &Family)
    requires
        f.wf(),
    ensures
        final(out)@ == old(out)@ + family_chars(*f),
{
    if f.series.len() == 0 {
        proof {
            assert(f.rows().len() == 0);
            assert(old(out)@ + family_chars(*f) =~= old(out)@);
        }
        return ;
    }
    out.append("# HELP ");
    out.append(f.name.as_str());
    out.append(" ");
    out.append(f.help.as_str());
    out.append("\n");
    out.append("# TYPE ");
    out.append(f.name.as_str());
    out.append(" ");
    if f.counter {
        out.append("counter");
    } else {
        out.append("gauge");
    }
    out.append("\n");
    proof {
        assert(out@ =~= old(out)@ + family_header_chars(*f) + rows_prefix(*f, 0));
    }
    let mut i: usize = 0;
    while i < f.series.len()
        invariant
            i <= f.series.len(),
            f.wf(),
            out@ == old(out)@ + family_header_chars(*f) + rows_prefix(*f, i as int),
        decreases f.series.len() - i,
    {
        let row = &f.series[i];
        proof {
            let ghost p = f.series@[i as int];
            assert(f.rows()[i as int] == (p.0.deep_view(), p.1));
            assert(row.0.deep_view().len() == row.0@.len());
            assert(f.label_names.deep_view().len() == f.label_names@.len());
        }
        push_row(out, &f.name, &f.label_names, &row.0, &row.1);
        proof {
            assert(out@ =~= old(out)@ + family_header_chars(*f) + rows_prefix(*f, i + 1));
        }
        i += 1;
    }
    proof {
        assert(old(out)@ + family_chars(*f) =~= old(out)@ + family_header_chars(*f) + rows_prefix(
            *f,
            f.rows().len() as int,
        ));
    }
}


proof fn lemma_escape_prefix_plain(s: Seq<char>, n: int)
    requires
        0 <= n <= s.len(),
        forall|i: int| 0 <= i < s.len() ==> s[i] != '\\' && s[i] != '"' && s[i] != '\n',
    ensures
        escape_prefix(s, n) == s.take(n),
    decreases n,
{
    if n <= 0 {
        assert(escape_prefix(s, n) =~= s.take(n));
    } else {
        lemma_escape_prefix_plain(s, n - 1);
        assert(esc_char(s[n - 1]) =~= seq![s[n - 1]]);
        assert(escape_prefix(s, n) =~= s.take(n));
    }
}

/// Label text round-trips into the exposition format: a label value that
/// holds no backslash, double quote or newline is written verbatim, so a
/// field carried into a series key appears unchanged in the rendered
/// snapshot.
pub proof fn lemma_escape_plain(s: Seq<char>)
    requires
        forall|i: int| 0 <= i < s.len() ==> s[i] != '\\' && s[i] != '"' && s[i] != '\n',
    ensures
        escape_chars(s) == s,
{
    lemma_escape_prefix_plain(s, s.len() as int);
    assert(s.take(s.len() as int) =~= s);
}


/// `needle` occurs as one contiguous run of `hay`.
pub open spec fn appears_in(hay: Seq<char>, needle: Seq<char>) -> bool {
    exists|off: int|
        0 <= off && off + needle.len() <= hay.len() && #[trigger] hay.subrange(
            off,
            off + needle.len(),
        ) == needle
}

/// Free of backslash, double quote and newline, so written verbatim.
pub open spec fn plain_text(s: Seq<char>) -> bool {
    forall|i: int| 0 <= i < s.len() ==> s[i] != '\\' && s[i] != '"' && s[i] != '\n'
}

pub proof fn lemma_appears_self(x: Seq<char>)
    ensures
        appears_in(x, x),
{
    let off: int = 0;
    assert(x.subrange(off, off + x.len()) =~= x);
    assert(0 <= off && off + x.len() <= x.len() && x.subrange(off, off + x.len()) == x);
}

pub proof fn lemma_appears_concat_left(a: Seq<char>, b: Seq<char>, x: Seq<char>)
    requires
        appears_in(b, x),
    ensures
        appears_in(a + b, x),
{
    let off = choose|off: int|
        0 <= off && off + x.len() <= b.len() && #[trigger] b.subrange(off, off + x.len()) == x;
    assert((a + b).subrange(a.len() + off, a.len() + off + x.len()) =~= x);
    assert(0 <= a.len() + off && a.len() + off + x.len() <= (a + b).len() && (a + b).subrange(
        a.len() + off,
        a.len() + off + x.len(),
    ) == x);
}

pub proof fn lemma_appears_concat_right(a: Seq<char>, b: Seq<char>, x: Seq<char>)
    requires
        appears_in(a, x),
    ensures
        appears_in(a + b, x),
{
    let off = choose|off: int|
        0 <= off && off + x.len() <= a.len() && #[trigger] a.subrange(off, off + x.len()) == x;
    assert((a + b).subrange(off, off + x.len()) =~= x);
    assert(0 <= off && off + x.len() <= (a + b).len() && (a + b).subrange(off, off + x.len())
        == x);
}

proof fn lemma_pair_contains_value(name: Seq<char>, value: Seq<char>, first: bool)
    requires
        plain_text(value),
    ensures
        appears_in(pair_chars(name, value, first), value),
{
    lemma_escape_plain(value);
    lemma_appears_self(value);
    let a = (if first {
        Seq::<char>::empty()
    } else {
        ","@
    }) + name + "=\""@;
    lemma_appears_concat_left(a, escape_chars(value), value);
    lemma_appears_concat_right(a + escape_chars(value), "\""@, value);
    assert(pair_chars(name, value, first) == a + escape_chars(value) + "\""@);
}

proof fn lemma_pairs_contain_value(names: Seq<Seq<char>>, vals: Seq<Seq<char>>, n: int, j: int)
    requires
        0 <= j < n,
        plain_text(vals[j]),
    ensures
        appears_in(pairs_prefix(names, vals, n), vals[j]),
    decreases n,
{
    if j == n - 1 {
        lemma_pair_contains_value(names[j], vals[j], n == 1);
        lemma_appears_concat_left(
            pairs_prefix(names, vals, n - 1),
            pair_chars(names[j], vals[j], n == 1),
            vals[j],
        );
    } else {
        lemma_pairs_contain_value(names, vals, n - 1, j);
        lemma_appears_concat_right(
            pairs_prefix(names, vals, n - 1),
            pair_chars(names[n - 1], vals[n - 1], n == 1),
            vals[j],
        );
    }
}

proof fn lemma_rows_contain(f: Family, n: int, i: int, x: Seq<char>)
    requires
        0 <= i < n <= f.rows().len(),
        appears_in(row_chars(f.name@, f.label_names.deep_view(), f.rows()[i]), x),
    ensures
        appears_in(rows_prefix(f, n), x),
    decreases n,
{
    if i == n - 1 {
        lemma_appears_concat_left(
            rows_prefix(f, n - 1),
            row_chars(f.name@, f.label_names.deep_view(), f.rows()[n - 1]),
            x,
        );
    } else {
        lemma_rows_contain(f, n - 1, i, x);
        lemma_appears_concat_right(
            rows_prefix(f, n - 1),
            row_chars(f.name@, f.label_names.deep_view(), f.rows()[n - 1]),
            x,
        );
    }
}

/// Label text round-trips into the rendered family: a label value of any
/// series, when it holds no character the format escapes, appears
/// verbatim as a contiguous run of the family's rendered form.
pub proof fn lemma_family_contains_label_value(f: Family, i: int, j: int)
    requires
        f.wf(),
        0 <= i < f.rows().len(),
        0 <= j < f.label_names@.len(),
        plain_text(f.rows()[i].0[j]),
    ensures
        appears_in(family_chars(f), f.rows()[i].0[j]),
{
    let x = f.rows()[i].0[j];
    let names = f.label_names.deep_view();
    let row = f.rows()[i];
    assert(names.len() == f.label_names@.len());
    assert(row.0.len() == names.len());
    lemma_pairs_contain_value(names, row.0, names.len() as int, j);
    let pairs = pairs_prefix(names, row.0, names.len() as int);
    lemma_appears_concat_left("{"@, pairs, x);
    lemma_appears_concat_right("{"@ + pairs, "}"@, x);
    assert(label_block_chars(names, row.0) == "{"@ + pairs + "}"@);
    lemma_appears_concat_left(f.name@, label_block_chars(names, row.0), x);
    lemma_appears_concat_right(f.name@ + label_block_chars(names, row.0), " "@, x);
    lemma_appears_concat_right(f.name@ + label_block_chars(names, row.0) + " "@, row.1.chars(), x);
    lemma_appears_concat_right(
        f.name@ + label_block_chars(names, row.0) + " "@ + row.1.chars(),
        "\n"@,
        x,
    );
    assert(row_chars(f.name@, names, row) == f.name@ + label_block_chars(names, row.0) + " "@
        + row.1.chars() + "\n"@);
    lemma_rows_contain(f, f.rows().len() as int, i, x);
    lemma_appears_concat_left(family_header_chars(f), rows_prefix(f, f.rows().len() as int), x);
    assert(family_chars(f) == family_header_chars(f) + rows_prefix(f, f.rows().len() as int));
}

} // verus!
