//! The document that the player keeps its state in: reading single entries and writing tables,
//! by way of the `toml` crate.

use vstd::prelude::*;
use crate::text::{chars_of, decimal};

verus! {

/// An entry of a document.
#[derive(Debug)]
pub enum Scalar {
    Text(String),
    Number(i64),
    Flag(bool),
    /// A table, a list, a date or a number with a fraction.
    Other,
}

pub enum ScalarView {
    Text(Seq<char>),
    Number(i64),
    Flag(bool),
    Other,
}

impl View for Scalar {
    type V = ScalarView;

    open spec fn view(&self) -> ScalarView {
        match self {
            Scalar::Text(s) => ScalarView::Text(s@),
            Scalar::Number(n) => ScalarView::Number(*n),
            Scalar::Flag(b) => ScalarView::Flag(*b),
            Scalar::Other => ScalarView::Other,
        }
    }
}

pub open spec fn opt_scalar(s: Option<Scalar>) -> Option<ScalarView> {
    match s {
        Some(s) => Some(s@),
        None => None,
    }
}

pub open spec fn pair_view(p: (String, String)) -> (Seq<char>, Seq<char>) {
    (p.0@, p.1@)
}

pub open spec fn pair_views(v: Seq<(String, String)>) -> Seq<(Seq<char>, Seq<char>)> {
    v.map_values(|p: (String, String)| pair_view(p))
}

/// A text without 256 equal quotation marks in a row. The writer of `toml` counts such runs in
/// eight bits.
pub open spec fn quotable(s: Seq<char>) -> bool {
    run_below(s, s.len() as int, '"') <= 255 && run_below(s, s.len() as int, '\'') <= 255
}

/// The longest run of `c` that ends before `n`.
pub open spec fn run_below(s: Seq<char>, n: int, c: char) -> int
    decreases n,
{
    if n <= 0 {
        0
    } else if run_at(s, n, c) > run_below(s, n - 1, c) {
        run_at(s, n, c)
    } else {
        run_below(s, n - 1, c)
    }
}

/// How many `c` stand right before `n`.
pub open spec fn run_at(s: Seq<char>, n: int, c: char) -> int
    decreases n,
{
    if n <= 0 || n > s.len() || s[n - 1] != c {
        0
    } else {
        1 + run_at(s, n - 1, c)
    }
}

/// How many times `\"` stands right before `n`, one behind the other.
pub open spec fn escaped_at(s: Seq<char>, n: int) -> int
    decreases n,
{
    if n <= 1 || n > s.len() || s[n - 1] != '"' || s[n - 2] != '\\' {
        0
    } else {
        1 + escaped_at(s, n - 2)
    }
}

/// A document whose texts are all quotable. In the form for debugging a double quotation mark of
/// a text is written with a backslash before it, and a single one as it is.
pub open spec fn rewritable(text: Seq<char>) -> bool {
    match toml_debug(text) {
        Some(d) => forall|n: int| 0 <= n <= d.len() ==> #[trigger] few_marks(d, n),
        None => true,
    }
}

/// At most 255 quotation marks of a text end before `n`.
pub open spec fn few_marks(d: Seq<char>, n: int) -> bool {
    escaped_at(d, n) <= 255 && run_at(d, n, '\'') <= 255
}

/// A document as `toml` writes it for debugging, where it can read it.
pub uninterp spec fn toml_debug(text: Seq<char>) -> Option<Seq<char>>;

/// A text that `toml` writes as it is, in double quotes.
pub open spec fn verbatim(s: Seq<char>) -> bool {
    forall|i: int|
        0 <= i < s.len() ==> #[trigger] s[i] >= ' ' && s[i] != '\x7f' && s[i] != '"' && s[i] != '\'' && s[i] != '\\'
}

/// The entry at the top of a document, as `toml` reads it.
pub uninterp spec fn toml_value(text: Seq<char>, key: Seq<char>) -> Option<ScalarView>;

/// The entry of a table of a document, as `toml` reads it.
pub uninterp spec fn toml_nested(text: Seq<char>, table: Seq<char>, key: Seq<char>) -> Option<ScalarView>;

/// The keys of a table of a document, in the order of `toml`.
pub uninterp spec fn toml_keys(text: Seq<char>, table: Seq<char>) -> Option<Seq<Seq<char>>>;

/// A text as `toml` writes it.
pub uninterp spec fn toml_quoted(s: Seq<char>) -> Seq<char>;

/// A document with one table of texts, as `toml` writes it.
pub uninterp spec fn toml_table(name: Seq<char>, pairs: Seq<(Seq<char>, Seq<char>)>) -> Option<Seq<char>>;

/// A document with one of its tables replaced by a table of texts, as `toml` writes it.
pub uninterp spec fn toml_replaced(
    text: Seq<char>,
    name: Seq<char>,
    pairs: Seq<(Seq<char>, Seq<char>)>,
) -> Option<Seq<char>>;

/// A value that is written on a line of its own.
pub enum Plain {
    Flag(bool),
    Number(u32),
    Text(Seq<char>),
    /// Letters, digits, points and signs: a number with a fraction, say.
    Bare(Seq<char>),
}

/// How a value is written.
pub open spec fn literal(p: Plain) -> Seq<char> {
    match p {
        Plain::Flag(b) => if b {
            "true"@
        } else {
            "false"@
        },
        Plain::Number(n) => decimal(n as nat),
        Plain::Text(t) => seq!['"'] + t + seq!['"'],
        Plain::Bare(t) => t,
    }
}

/// Small letters and underscores.
pub open spec fn bare_key(k: Seq<char>) -> bool {
    k.len() > 0 && forall|i: int| 0 <= i < k.len() ==> 'a' <= #[trigger] k[i] <= 'z' || k[i] == '_'
}

pub open spec fn bare_char(c: char) -> bool {
    'a' <= c <= 'z' || 'A' <= c <= 'Z' || '0' <= c <= '9' || c == '.' || c == '-' || c == '+'
}

pub open spec fn plain_value(p: Plain) -> bool {
    match p {
        Plain::Text(t) => verbatim(t),
        Plain::Bare(t) => forall|i: int| 0 <= i < t.len() ==> bare_char(#[trigger] t[i]),
        _ => true,
    }
}

pub open spec fn plain_lines(lines: Seq<(Seq<char>, Plain)>) -> bool {
    forall|i: int| 0 <= i < lines.len() ==> bare_key((#[trigger] lines[i]).0) && plain_value(lines[i].1)
}

/// One entry a line.
pub open spec fn lines_text(lines: Seq<(Seq<char>, Plain)>) -> Seq<char>
    decreases lines.len(),
{
    if lines.len() == 0 {
        seq![]
    } else {
        lines_text(lines.drop_last()) + lines.last().0 + " = "@ + literal(lines.last().1) + "\n"@
    }
}

/// The value that the lines have for a key.
pub open spec fn found(lines: Seq<(Seq<char>, Plain)>, key: Seq<char>) -> Option<Plain>
    decreases lines.len(),
{
    if lines.len() == 0 {
        None
    } else if lines.last().0 == key {
        Some(lines.last().1)
    } else {
        found(lines.drop_last(), key)
    }
}

/// Nothing, or a table and what is below it.
pub open spec fn tables_only(rest: Seq<char>) -> bool {
    rest.len() == 0 || (rest.len() >= 2 && rest[0] == '\n' && rest[1] == '[')
}

/// A document that `toml` can read, with something in it.
pub open spec fn readable(text: Seq<char>) -> bool {
    exists|key: Seq<char>| #[trigger] toml_value(text, key) is Some
}

/// A document that starts with these lines, with tables below them.
pub open spec fn top_of(text: Seq<char>, lines: Seq<(Seq<char>, Plain)>) -> bool {
    plain_lines(lines) && exists|rest: Seq<char>| #[trigger] tables_only(rest) && text == lines_text(lines) + rest
}

/// Lines, a table that `toml` wrote below them or none, a table of lines below it or none, and
/// tables that can be read by themselves below that or none.
pub open spec fn closed_text(text: Seq<char>) -> bool {
    exists|lines: Seq<(Seq<char>, Plain)>, a: Seq<char>, b: Seq<char>, c: Seq<char>|
        plain_lines(lines) && (a.len() == 0 || written_table(a)) && (b.len() == 0 || lined_table(b)) && (c.len() == 0
            || whole_tables(c)) && text == #[trigger] (lines_text(lines) + a + b + c)
}

/// Tables that can be read by themselves, up to the end of a line, below an empty line.
pub open spec fn whole_tables(text: Seq<char>) -> bool {
    text.len() >= 3 && text[0] == '\n' && text[1] == '[' && text.last() == '\n' && readable(text.skip(1))
}

/// A table of lines, below an empty line.
pub open spec fn lined_table(table: Seq<char>) -> bool {
    exists|name: Seq<char>, lines: Seq<(Seq<char>, Plain)>|
        bare_key(name) && plain_lines(lines) && table == #[trigger] ("\n["@ + name + "]\n"@ + lines_text(lines))
}

/// A table that `toml` wrote, below an empty line.
pub open spec fn written_table(table: Seq<char>) -> bool {
    exists|name: Seq<char>, pairs: Seq<(Seq<char>, Seq<char>)>|
        #[trigger] toml_table(name, pairs) is Some && table == "\n"@ + toml_table(name, pairs)->0 && (forall|i: int|
            0 <= i < pairs.len() ==> quotable((#[trigger] pairs[i]).1))
}

/// A document with a table of these lines, with other tables below it.
pub open spec fn table_of_lines(text: Seq<char>, table: Seq<char>, lines: Seq<(Seq<char>, Plain)>) -> bool {
    bare_key(table) && plain_lines(lines) && exists|before: Seq<char>, rest: Seq<char>|
        #[trigger] closed_text(before) && #[trigger] tables_only(rest) && text == before + "\n["@ + table + "]\n"@
            + lines_text(lines) + rest
}

/// A key that is one character, or that starts with no dollar sign: `toml` takes a table that
/// starts with a certain such key for a date.
pub open spec fn table_key(k: Seq<char>) -> bool {
    verbatim(k) && (k.len() <= 1 || k[0] != '$')
}

/// Pairs of texts that are written as they are.
pub open spec fn verbatim_pairs(pairs: Seq<(Seq<char>, Seq<char>)>) -> bool {
    forall|i: int| 0 <= i < pairs.len() ==> table_key((#[trigger] pairs[i]).0) && verbatim(pairs[i].1)
}

/// A document with a table of these texts, as `toml` writes it, with other tables below it.
pub open spec fn table_of_texts(text: Seq<char>, table: Seq<char>, pairs: Seq<(Seq<char>, Seq<char>)>) -> bool {
    bare_key(table) && verbatim_pairs(pairs) && toml_table(table, pairs) is Some && exists|before: Seq<char>, rest: Seq<char>|
        #[trigger] closed_text(before) && #[trigger] tables_only(rest) && text == before + "\n"@ + toml_table(
            table,
            pairs,
        )->0 + rest
}

/// Every key of the pairs is among the keys.
pub open spec fn has_keys(keys: Option<Seq<Seq<char>>>, pairs: Seq<(Seq<char>, Seq<char>)>) -> bool {
    keys matches Some(keys) && forall|i: int| 0 <= i < pairs.len() ==> keys.contains((#[trigger] pairs[i]).0)
}

/// An entry is the text of its pair. Where no pair has it, it is missing, or a table.
pub open spec fn as_paired(v: Option<ScalarView>, t: Option<Seq<char>>) -> bool {
    match t {
        Some(t) => v == Some(ScalarView::Text(t)),
        None => v is None || v == Some(ScalarView::Other),
    }
}

/// An entry is what its line says. Where no line has it, it is missing, or a table.
pub open spec fn as_lined(v: Option<ScalarView>, p: Option<Plain>) -> bool {
    match p {
        Some(Plain::Flag(b)) => v == Some(ScalarView::Flag(b)),
        Some(Plain::Number(n)) => v == Some(ScalarView::Number(n as i64)),
        Some(Plain::Text(t)) => v == Some(ScalarView::Text(t)),
        Some(Plain::Bare(_)) => true,
        None => v is None || v == Some(ScalarView::Other),
    }
}

/// `str::parse::<toml::Table>` and `toml::Table::remove`: the value at the top of the document,
/// nothing when the document cannot be read or has no such key. The result is named `toml_value`.
/// Where the document starts with plain lines, and can be read, the value is what its line says.
#[verifier::external_body]
pub(crate) fn value_at(text: &str, key: &str) -> (r: Option<Scalar>)
    ensures
        opt_scalar(r) == toml_value(text@, key@),
        forall|lines: Seq<(Seq<char>, Plain)>|
            #[trigger] top_of(text@, lines) && readable(text@) ==> as_lined(opt_scalar(r), found(lines, key@)),
{
    let value = text.parse::<toml::Table>().ok()?.remove(key)?;
    Some(match value {
        toml::Value::String(s) => Scalar::Text(s),
        toml::Value::Integer(n) => Scalar::Number(n),
        toml::Value::Boolean(b) => Scalar::Flag(b),
        toml::Value::Float(_) => Scalar::Other,
        toml::Value::Datetime(_) => Scalar::Other,
        toml::Value::Array(_) => Scalar::Other,
        toml::Value::Table(_) => Scalar::Other,
    })
}

/// `str::parse::<toml::Table>`, `toml::Table::remove` and `toml::Value::get`: the value in a
/// table of the document, nothing when the document cannot be read, has no such entry or the
/// entry is no table. The result is named `toml_nested`. Where the table is one of plain lines,
/// and the document can be read, the value is what its line says; where it is one that `toml`
/// wrote, the value is the text that was put in.
#[verifier::external_body]
pub(crate) fn nested_at(text: &str, table: &str, key: &str) -> (r: Option<Scalar>)
    ensures
        opt_scalar(r) == toml_nested(text@, table@, key@),
        forall|lines: Seq<(Seq<char>, Plain)>|
            #[trigger] table_of_lines(text@, table@, lines) && readable(text@) ==> as_lined(
                opt_scalar(r),
                found(lines, key@),
            ),
        forall|pairs: Seq<(Seq<char>, Seq<char>)>|
            #[trigger] table_of_texts(text@, table@, pairs) && readable(text@) ==> as_paired(
                opt_scalar(r),
                paired(pairs, key@),
            ),
{
    let table = text.parse::<toml::Table>().ok()?.remove(table)?;
    Some(match table.get(key)? {
        toml::Value::String(s) => Scalar::Text(s.clone()),
        toml::Value::Integer(n) => Scalar::Number(*n),
        toml::Value::Boolean(b) => Scalar::Flag(*b),
        toml::Value::Float(_) => Scalar::Other,
        toml::Value::Datetime(_) => Scalar::Other,
        toml::Value::Array(_) => Scalar::Other,
        toml::Value::Table(_) => Scalar::Other,
    })
}

pub open spec fn opt_texts(v: Option<Vec<String>>) -> Option<Seq<Seq<char>>> {
    match v {
        Some(v) => Some(crate::text::str_views(v@)),
        None => None,
    }
}

/// `str::parse::<toml::Table>`, `toml::Value::as_table` and `toml::Table::keys`: the keys of a
/// table of the document, each once, nothing when the document cannot be read or the entry is no
/// table. The result is named `toml_keys`. Where the table is one that `toml` wrote, and the
/// document can be read, every key that was put in is there.
#[verifier::external_body]
pub(crate) fn keys_at(text: &str, table: &str) -> (r: Option<Vec<String>>)
    ensures
        opt_texts(r) == toml_keys(text@, table@),
        r matches Some(v) ==> crate::text::str_views(v@).no_duplicates(),
        forall|pairs: Seq<(Seq<char>, Seq<char>)>|
            #[trigger] table_of_texts(text@, table@, pairs) && readable(text@) ==> has_keys(opt_texts(r), pairs),
{
    let table = text.parse::<toml::Table>().ok()?.remove(table)?;
    Some(table.as_table()?.keys().cloned().collect())
}

/// The `Display` of `toml::Value::String`: the text as a value of a document, in quotes. The
/// result is named `toml_quoted`.
#[verifier::external_body]
pub(crate) fn quoted_value(s: &str) -> (r: String)
    requires
        quotable(s@),
    ensures
        r@ == toml_quoted(s@),
        verbatim(s@) ==> r@ == seq!['"'] + s@ + seq!['"'],
{
    toml::Value::String(s.to_string()).to_string()
}

pub open spec fn opt_str(s: Option<String>) -> Option<Seq<char>> {
    match s {
        Some(s) => Some(s@),
        None => None,
    }
}

/// `toml::to_string` of a document with one table of texts, which it can always write. The result
/// is named `toml_table`; it starts with the bracket before the name of the table.
#[verifier::external_body]
pub(crate) fn table_text(name: &str, pairs: &Vec<(String, String)>) -> (r: Option<String>)
    requires
        forall|i: int| 0 <= i < pairs@.len() ==> quotable(#[trigger] pairs@[i].1@),
    ensures
        opt_str(r) == toml_table(name@, pair_views(pairs@)),
        opt_str(r) is Some,
        r matches Some(s) ==> s@.len() > 0 && s@[0] == '[',
{
    let table: toml::Table = pairs.iter().map(|p| (p.0.clone(), p.1.clone().into())).collect();
    toml::to_string(&toml::Table::from_iter([(name.to_string(), toml::Value::Table(table))])).ok()
}

/// An entry that is written and read again as it was.
pub open spec fn lasting(v: Option<ScalarView>) -> bool {
    match v {
        Some(ScalarView::Text(s)) => verbatim(s),
        Some(ScalarView::Number(_)) | Some(ScalarView::Flag(_)) => true,
        _ => false,
    }
}

/// The text that a list of pairs has for a key; the last one counts.
pub open spec fn paired(pairs: Seq<(Seq<char>, Seq<char>)>, key: Seq<char>) -> Option<Seq<char>>
    decreases pairs.len(),
{
    if pairs.len() == 0 {
        None
    } else if pairs.last().0 == key {
        Some(pairs.last().1)
    } else {
        paired(pairs.drop_last(), key)
    }
}

/// `str::parse::<toml::Table>`, `toml::Table::insert` and `toml::to_string`: the document, or an
/// empty one where it cannot be read, with the table in place of the entry of its name. The
/// result is named `toml_replaced`. As long as the new document can be read, what was put into
/// the table is read back, as far as its texts are written as they are, and so are the simple
/// entries at the top of the document.
#[verifier::external_body]
pub(crate) fn replaced_text(text: &str, name: &str, pairs: &Vec<(String, String)>) -> (r: Option<String>)
    requires
        rewritable(text@),
        verbatim(name@),
        forall|i: int| 0 <= i < pairs@.len() ==> quotable(#[trigger] pairs@[i].1@) && table_key(pairs@[i].0@),
    ensures
        opt_str(r) == toml_replaced(text@, name@, pair_views(pairs@)),
        r matches Some(s) ==> forall|key: Seq<char>|
            readable(s@) && verbatim(key) && (paired(pair_views(pairs@), key) matches Some(v) ==> verbatim(v))
                ==> #[trigger] toml_nested(s@, name@, key) == (match paired(pair_views(pairs@), key) {
                Some(v) => Some(ScalarView::Text(v)),
                None => None,
            }),
        r matches Some(s) ==> forall|key: Seq<char>|
            readable(s@) && key != name@ && lasting(toml_value(text@, key)) ==> #[trigger] toml_value(s@, key) == toml_value(
                text@,
                key,
            ),
{
    let mut document = text.parse::<toml::Table>().unwrap_or_default();
    let table: toml::Table = pairs.iter().map(|p| (p.0.clone(), p.1.clone().into())).collect();
    document.insert(name.to_string(), toml::Value::Table(table));
    toml::to_string(&document).ok()
}

/// `str::parse::<toml::Table>` and the `Debug` of `toml::Table`: the document with its texts in
/// Rust's form, nothing when it cannot be read. The result is named `toml_debug`.
#[verifier::external_body]
pub(crate) fn debug_form(text: &str) -> (r: Option<String>)
    ensures
        opt_str(r) == toml_debug(text@),
{
    let document = text.parse::<toml::Table>().ok()?;
    Some(format!("{document:?}"))
}

/// Whether every text of a document is quotable.
pub fn is_rewritable(text: &str) -> (r: bool)
    ensures
        r == rewritable(text@),
{
    let d = match debug_form(text) {
        Some(d) => d,
        None => {
            return true;
        },
    };
    let v = chars_of(&d);
    let n: usize = v.len();
    let mut singles: usize = 0;
    // How many escaped marks end here, and how many end one character before.
    let mut doubles: usize = 0;
    let mut last: usize = 0;
    let mut i: usize = 0;
    while i < n
        invariant
            i <= n == v@.len(),
            v@ == d@,
            toml_debug(text@) == Some(d@),
            singles == run_at(d@, i as int, '\''),
            doubles == escaped_at(d@, i as int),
            i > 0 ==> last == escaped_at(d@, i - 1),
            i == 0 ==> last == 0,
            singles <= 255,
            doubles <= 255,
            last <= 255,
            forall|k: int| 0 <= k <= i ==> #[trigger] few_marks(d@, k),
        decreases n - i,
    {
        singles = if v[i] == '\'' {
            singles + 1
        } else {
            0
        };
        let here: usize = if i > 0 && v[i] == '"' && v[i - 1] == '\\' {
            last + 1
        } else {
            0
        };
        last = doubles;
        doubles = here;
        i = i + 1;
        assert(doubles == escaped_at(d@, i as int));
        assert(singles == run_at(d@, i as int, '\''));
        if singles > 255 || doubles > 255 {
            assert(!few_marks(d@, i as int));
            assert(toml_debug(text@)->0 == d@);
            assert(rewritable(text@) ==> few_marks(d@, i as int));
            return false;
        }
    }
    true
}

/// Whether a text has no 256 equal quotation marks in a row.
pub fn is_quotable(s: &str) -> (r: bool)
    ensures
        r == quotable(s@),
{
    let v = chars_of(s);
    let n: usize = v.len();
    let mut doubles: usize = 0;
    let mut singles: usize = 0;
    let mut most_doubles: usize = 0;
    let mut most_singles: usize = 0;
    let mut i: usize = 0;
    while i < n
        invariant
            i <= n == v@.len(),
            v@ == s@,
            doubles == run_at(s@, i as int, '"'),
            singles == run_at(s@, i as int, '\''),
            most_doubles == run_below(s@, i as int, '"'),
            most_singles == run_below(s@, i as int, '\''),
            doubles <= i,
            singles <= i,
        decreases n - i,
    {
        doubles = if v[i] == '"' {
            doubles + 1
        } else {
            0
        };
        singles = if v[i] == '\'' {
            singles + 1
        } else {
            0
        };
        if doubles > most_doubles {
            most_doubles = doubles;
        }
        if singles > most_singles {
            most_singles = singles;
        }
        i = i + 1;
    }
    most_doubles <= 255 && most_singles <= 255
}

/// The lines with one more, where there is a value for it.
pub open spec fn with_line(lines: Seq<(Seq<char>, Plain)>, key: Seq<char>, p: Option<Plain>) -> Seq<(Seq<char>, Plain)> {
    match p {
        Some(p) => lines.push((key, p)),
        None => lines,
    }
}

pub open spec fn line_text(key: Seq<char>, p: Option<Plain>) -> Seq<char> {
    match p {
        Some(p) => key + " = "@ + literal(p) + "\n"@,
        None => seq![],
    }
}

/// What one more line adds.
pub(crate) proof fn lemma_with_line(lines: Seq<(Seq<char>, Plain)>, key: Seq<char>, p: Option<Plain>)
    ensures
        lines_text(with_line(lines, key, p)) == lines_text(lines) + line_text(key, p),
        forall|k: Seq<char>| #[trigger]
            found(with_line(lines, key, p), k) == (if k == key && p is Some {
                p
            } else {
                found(lines, k)
            }),
        plain_lines(lines) && bare_key(key) && (p matches Some(v) ==> plain_value(v)) ==> plain_lines(
            with_line(lines, key, p),
        ),
{
    if let Some(v) = p {
        let l = lines.push((key, v));
        assert(l.drop_last() =~= lines);
        assert(lines_text(l) =~= lines_text(lines) + line_text(key, p));
    } else {
        assert(lines_text(lines) =~= lines_text(lines) + line_text(key, p));
    }
}

} // verus!
