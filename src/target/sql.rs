//! The SQL target: insert statements, batched into statements and transactions.
use vstd::prelude::*;
use vstd::arithmetic::div_mod::{lemma_fundamental_div_mod, lemma_fundamental_div_mod_converse};
use crate::Arguments;
use crate::number::{float_text, is_float_text};
use crate::target::{outcome_of, ConvertError, Failure, Sources, Target};
use crate::text::{chars_of, lines_of, lines_text, push_char, spells_ignoring_case, spells_word};

verus! {

/// Writes insert statements for the records of a CSV text.
pub struct TargetSql {
    /// The table the statements insert into.
    pub table: String,
    /// Column names that replace the header record when not empty.
    pub columns: Vec<String>,
    /// Insert statements per transaction; 0 means one transaction for the whole run.
    pub chunk: usize,
    /// Rows per insert statement; 0 means one row per statement.
    pub chunk_insert: usize,
    /// Path of a template written before the statements.
    pub prefix: String,
    /// Path of a template written after the statements.
    pub suffix: String,
    /// Whether the statements are wrapped in transactions.
    pub with_transaction: bool,
    /// Whether values are typed by their text or all quoted as strings.
    pub typed: bool,
}

/// `s` with every single quote doubled.
pub open spec fn quote_doubled(s: Seq<char>) -> Seq<char>
    decreases s.len(),
{
    if s.len() == 0 {
        seq![]
    } else {
        let c = s.last();
        quote_doubled(s.drop_last()) + if c == '\'' {
            seq!['\'', '\'']
        } else {
            seq![c]
        }
    }
}

/// `s` as an SQL string literal.
pub open spec fn string_literal(s: Seq<char>) -> Seq<char> {
    seq!['\''] + quote_doubled(s) + seq!['\'']
}

/// `s` reads `true` or `false`, in any case.
pub open spec fn boolean_text(s: Seq<char>) -> bool {
    spells_ignoring_case(s, seq!['t', 'r', 'u', 'e']) || spells_ignoring_case(
        s,
        seq!['f', 'a', 'l', 's', 'e'],
    )
}

/// The literal for a field whose type is read from its text: a number or a boolean as it
/// stands, an empty field as `NULL`, anything else as a string literal.
pub open spec fn typed_literal(s: Seq<char>) -> Seq<char> {
    if float_text(s) || boolean_text(s) {
        s
    } else if s.len() == 0 {
        "NULL"@
    } else {
        string_literal(s)
    }
}

/// `items` with `sep` between each two consecutive ones.
pub open spec fn joined(items: Seq<Seq<char>>, sep: Seq<char>) -> Seq<char>
    decreases items.len(),
{
    if items.len() == 0 {
        seq![]
    } else if items.len() == 1 {
        items[0]
    } else {
        joined(items.drop_last(), sep) + sep + items.last()
    }
}

/// Whether `s` parses as a 64-bit floating-point number.
pub fn is_number(s: &str) -> (r: bool)
    ensures
        r == float_text(s@),
{
    let v = chars_of(s);
    if v.len() == 0 {
        assert(!float_text(s@)) by {
            assert(!spells_ignoring_case(seq![], seq!['i', 'n', 'f']));
            assert(!spells_ignoring_case(seq![], seq!['i', 'n', 'f', 'i', 'n', 'i', 't', 'y']));
            assert(!spells_ignoring_case(seq![], seq!['n', 'a', 'n']));
        }
        return false;
    }
    is_float_text(&v)
}

/// Whether `s` reads `true` or `false`, in any case.
pub fn is_boolean(s: String) -> (r: bool)
    ensures
        r == boolean_text(s@),
{
    let v = chars_of(s.as_str());
    let t: Vec<char> = vec!['t', 'r', 'u', 'e'];
    let f: Vec<char> = vec!['f', 'a', 'l', 's', 'e'];
    spells_word(&v, &t) || spells_word(&v, &f)
}

/// Appends `s` to `out` as an SQL string literal.
fn push_string_literal(out: &mut String, s: &str)
    ensures
        final(out)@ == old(out)@ + string_literal(s@),
{
    let v = chars_of(s);
    push_char(out, '\'');
    let ghost start = out@;
    for i in 0..v.len()
        invariant
            v@ == s@,
            out@ == start + quote_doubled(v@.take(i as int)),
    {
        let c = v[i];
        push_char(out, c);
        if c == '\'' {
            push_char(out, '\'');
        }
        assert(v@.take(i + 1).drop_last() == v@.take(i as int));
    }
    assert(v@.take(v.len() as int) == v@);
    push_char(out, '\'');
}

/// Relies on `itertools::intersperse`, which yields a clone of the separator between each two
/// consecutive items, and on collecting strings into a `String`, which concatenates them.
#[verifier::external_body]
fn intersperse_strings(items: Vec<String>, separator: String) -> (r: String)
    ensures
        r@ == joined(items.deep_view(), separator@),
{
    itertools::intersperse(items, separator).collect()
}

/// What `read_csv` gives for a CSV text read with a delimiter and a header setting: the
/// header record and the records, or `None` where the text does not decode.
pub uninterp spec fn csv_table(text: Seq<char>, delimiter: u8, has_headers: bool) -> Option<
    (Seq<Seq<char>>, Seq<Seq<Seq<char>>>),
>;

/// Relies on the `csv` crate's `Reader`, built by `ReaderBuilder` with the given delimiter and
/// header setting: `headers` gives the header record (the first record), and `records` gives
/// the records that follow it, or all of them without a header; the result depends on the
/// text and the settings alone.
#[verifier::external_body]
fn read_csv(text: &str, delimiter: u8, has_headers: bool) -> (r: Result<
    (Vec<String>, Vec<Vec<String>>),
    ::csv::Error,
>)
    ensures
        match r {
            Ok(t) => csv_table(text@, delimiter, has_headers) == Some(
                (t.0.deep_view(), t.1.deep_view()),
            ),
            Err(_) => csv_table(text@, delimiter, has_headers) is None,
        },
{
    let mut reader = ::csv::ReaderBuilder::new()
        .delimiter(delimiter)
        .has_headers(has_headers)
        .from_reader(text.as_bytes());
    let headers = reader.headers()?.iter().map(String::from).collect();
    let mut records = Vec::new();
    for record in reader.records() {
        records.push(record?.iter().map(String::from).collect());
    }
    Ok((headers, records))
}

/// What `render_template` gives for a template text and a context that maps `name` to
/// `value`, or `None` where the template does not compile or render.
pub uninterp spec fn rendered(template: Seq<char>, name: Seq<char>, value: Seq<char>) -> Option<
    Seq<char>,
>;

/// Whether a `{` at index `i` of `s` opens a block tag `{{` or an empty comment `{#}`.
pub open spec fn opens_block_or_empty_comment(s: Seq<char>, i: int) -> bool {
    &&& s[i] == '{'
    &&& {
        ||| (i + 1 < s.len() && s[i + 1] == '{')
        ||| (i + 2 < s.len() && s[i + 1] == '#' && s[i + 2] == '}')
    }
}

/// A template whose only feature is the substitution of values: it opens no block tag and no
/// empty comment, and does not end in a backslash.
pub open spec fn substitution_template(s: Seq<char>) -> bool {
    &&& forall|i: int| 0 <= i < s.len() ==> !opens_block_or_empty_comment(s, i)
    &&& !(s.len() > 0 && s.last() == '\\')
}

/// Whether `s` is a `substitution_template`.
pub fn is_substitution_template(s: &str) -> (r: bool)
    ensures
        r == substitution_template(s@),
{
    let v = chars_of(s);
    let n = v.len();
    let mut i: usize = 0;
    while i < n
        invariant
            n == v.len(),
            v@ == s@,
            i <= n,
            forall|j: int| 0 <= j < i ==> !opens_block_or_empty_comment(v@, j),
        decreases n - i,
    {
        if v[i] == '{' && i + 1 < n && (v[i + 1] == '{' || (i + 2 < n && v[i + 1] == '#' && v[i
            + 2] == '}')) {
            assert(opens_block_or_empty_comment(v@, i as int));
            return false;
        }
        i = i + 1;
    }
    !(n > 0 && v[n - 1] == '\\')
}

/// Relies on `tinytemplate`: `TinyTemplate::add_template` compiles the text and
/// `TinyTemplate::render` fills it from a context in which `name` stands for `value`; the
/// result depends on those three alone. The compiler panics on an empty comment `{#}`, on a
/// text that ends in a backslash, and on some block tags (`{{ if not }}`), so only
/// substitution templates are handed to it.
#[verifier::external_body]
fn render_template(template: &str, name: &str, value: &str) -> (r: Result<
    String,
    ::tinytemplate::error::Error,
>)
    requires
        substitution_template(template@),
    ensures
        match r {
            Ok(s) => rendered(template@, name@, value@) == Some(s@),
            Err(_) => rendered(template@, name@, value@) is None,
        },
{
    let mut context = std::collections::BTreeMap::new();
    context.insert(name, value);
    let mut engine = ::tinytemplate::TinyTemplate::new();
    engine.add_template("content", template)?;
    engine.render("content", &context)
}

impl TargetSql {
    /// The literal for field text `s` under this target's typing.
    pub open spec fn literal(&self, s: Seq<char>) -> Seq<char> {
        if self.typed {
            typed_literal(s)
        } else {
            string_literal(s)
        }
    }

    /// The parenthesised list of literals for a record.
    pub open spec fn values_text(&self, record: Seq<Seq<char>>) -> Seq<char> {
        "("@ + joined(record.map_values(|f: Seq<char>| self.literal(f)), ", "@) + ")"@
    }

    /// The column names: the explicit columns when there are any, else the header record
    /// when the source has one, else none.
    pub open spec fn field_names(&self, args: &Arguments, headers: Seq<Seq<char>>) -> Seq<Seq<char>> {
        if self.columns@.len() == 0 && args.has_headers {
            headers
        } else {
            self.columns.deep_view()
        }
    }

    /// The parenthesised, comma-separated column names.
    pub open spec fn fields_clause(&self, args: &Arguments, headers: Seq<Seq<char>>) -> Seq<char> {
        "("@ + joined(self.field_names(args, headers), ", "@) + ")"@
    }

    /// The column names that the statements list.
    pub fn get_fields(&self, args: &Arguments, headers: &Vec<String>) -> (fields: Vec<String>)
        ensures
            fields.deep_view() == self.field_names(args, headers.deep_view()),
    {
        let mut fields: Vec<String> = Vec::new();
        let source = if self.columns.len() == 0 && args.has_headers {
            headers
        } else {
            &self.columns
        };
        for i in 0..source.len()
            invariant
                fields.len() == i,
                forall|j: int| 0 <= j < i ==> (#[trigger] fields@[j])@ == source@[j]@,
        {
            fields.push(source[i].clone());
        }
        assert(fields.deep_view() =~= source.deep_view());
        fields
    }

    /// `fields` joined by commas, in parentheses.
    pub fn format_fields(&self, fields: Vec<String>) -> (r: String)
        ensures
            r@ == "("@ + joined(fields.deep_view(), ", "@) + ")"@,
    {
        let insert_fields = intersperse_strings(fields, String::from_str(", "));
        let mut r = String::new();
        r.append("(");
        r.append(insert_fields.as_str());
        r.append(")");
        r
    }

    /// Whether the statements stand in transactions: asked for, or implied by a chunk size.
    pub open spec fn in_transaction(&self) -> bool {
        self.with_transaction || self.chunk > 0
    }

    /// Whether record `i` (from 0) opens a new insert statement.
    pub open spec fn starts_statement(&self, i: int) -> bool {
        self.chunk_insert == 0 || i % (self.chunk_insert as int) == 0
    }

    /// The index (from 0) of the insert statement that holds record `i`.
    pub open spec fn statement_index(&self, i: int) -> int {
        if self.chunk_insert == 0 {
            i
        } else {
            i / (self.chunk_insert as int)
        }
    }

    /// Whether a transaction is committed and a new one begun before statement `statement`.
    pub open spec fn reopens_transaction(&self, statement: int) -> bool {
        self.chunk > 0 && statement > 0 && statement % (self.chunk as int) == 0
    }

    /// How many of the first `n` records open an insert statement.
    pub open spec fn statement_count(&self, n: nat) -> nat
        decreases n,
    {
        if n == 0 {
            0
        } else {
            self.statement_count((n - 1) as nat) + if self.starts_statement(n - 1) {
                1nat
            } else {
                0nat
            }
        }
    }

    /// How many of the first `m` insert statements are preceded by a commit and a new
    /// `begin transaction`.
    pub open spec fn reopen_count(&self, m: nat) -> nat
        decreases m,
    {
        if m == 0 {
            0
        } else {
            self.reopen_count((m - 1) as nat) + if self.reopens_transaction(m - 1) {
                1nat
            } else {
                0nat
            }
        }
    }

    /// The text written for record `i`, whose literals are `values`.
    pub open spec fn row_text_with(&self, clause: Seq<char>, values: Seq<char>, i: int) -> Seq<char> {
        if self.starts_statement(i) {
            (if self.reopens_transaction(self.statement_index(i)) {
                ";\n\ncommit;\n\nbegin transaction"@
            } else {
                seq![]
            }) + (if i == 0 && !self.in_transaction() {
                seq![]
            } else {
                ";\n\n"@
            }) + "insert into "@ + self.table@ + " "@ + clause + " values"@ + "\n"@ + values
        } else {
            ","@ + "\n"@ + values
        }
    }

    /// The text written for record `i`, whose fields are `record`.
    pub open spec fn row_text(&self, clause: Seq<char>, record: Seq<Seq<char>>, i: int) -> Seq<char> {
        self.row_text_with(clause, self.values_text(record), i)
    }

    /// The text written for `records`, in order.
    pub open spec fn rows_text(&self, clause: Seq<char>, records: Seq<Seq<Seq<char>>>) -> Seq<char>
        decreases records.len(),
    {
        if records.len() == 0 {
            seq![]
        } else {
            self.rows_text(clause, records.drop_last()) + self.row_text(
                clause,
                records.last(),
                records.len() - 1,
            )
        }
    }

    /// The statements for `records` with the column list `clause`, the transaction opened
    /// before them and the last statement and transaction closed after them.
    pub open spec fn sql_text(&self, clause: Seq<char>, records: Seq<Seq<Seq<char>>>) -> Seq<char> {
        (if self.in_transaction() {
            "begin transaction"@
        } else {
            seq![]
        }) + self.rows_text(clause, records) + if self.in_transaction() {
            ";\n\ncommit;"@
        } else {
            ";"@
        }
    }

    /// Appends the text for record `i`, whose literals are `values`.
    fn write_row(&self, sql: &mut String, insert_fields: &String, values: &String, i: usize)
        ensures
            final(sql)@ == old(sql)@ + self.row_text_with(insert_fields@, values@, i as int),
    {
        let ghost before = sql@;
        if self.chunk_insert == 0 || i % self.chunk_insert == 0 {
            let statement = if self.chunk_insert == 0 {
                i
            } else {
                i / self.chunk_insert
            };
            if self.chunk > 0 && statement > 0 && statement % self.chunk == 0 {
                sql.append(";\n\ncommit;\n\nbegin transaction");
            }
            if i > 0 || self.with_transaction || self.chunk > 0 {
                sql.append(";\n\n");
            }
            sql.append("insert into ");
            sql.append(self.table.as_str());
            sql.append(" ");
            sql.append(insert_fields.as_str());
            sql.append(" values");
            sql.append("\n");
            sql.append(values.as_str());
        } else {
            sql.append(",");
            sql.append("\n");
            sql.append(values.as_str());
        }
        assert(sql@ =~= before + self.row_text_with(insert_fields@, values@, i as int));
    }

    /// The insert statements for `records`, the columns named by `get_fields`.
    pub fn generate_sql(&self, args: &Arguments, headers: &Vec<String>, records: &Vec<Vec<String>>) -> (sql: String)
        ensures
            sql@ == self.sql_text(self.fields_clause(args, headers.deep_view()), records.deep_view()),
    {
        let insert_fields = self.format_fields(self.get_fields(args, headers));
        let ghost clause = self.fields_clause(args, headers.deep_view());
        let ghost rows = records.deep_view();
        let in_transaction = self.with_transaction || self.chunk > 0;
        let mut sql = String::new();
        if in_transaction {
            sql.append("begin transaction");
        }
        let ghost head = sql@;
        let mut i: usize = 0;
        while i < records.len()
            invariant
                i <= records.len(),
                insert_fields@ == clause,
                rows == records.deep_view(),
                in_transaction == self.in_transaction(),
                head == (if self.in_transaction() { "begin transaction"@ } else { seq![] }),
                sql@ == head + self.rows_text(clause, rows.take(i as int)),
            decreases records.len() - i,
        {
            let values = self.get_values(&records[i]);
            self.write_row(&mut sql, &insert_fields, &values, i);
            assert(rows.take(i + 1).drop_last() =~= rows.take(i as int));
            i = i + 1;
        }
        assert(rows.take(records.len() as int) =~= rows);
        if in_transaction {
            sql.append(";\n\ncommit;");
        } else {
            sql.append(";");
        }
        sql
    }

    /// What a prefix or suffix adds: nothing without a file, else its text rendered with
    /// `table` standing for the table name, and a line feed. A text that is no substitution
    /// template is refused.
    pub open spec fn content_outcome(&self, content: Option<Seq<char>>) -> Result<Seq<char>, Failure> {
        match content {
            None => Ok(seq![]),
            Some(c) => if !substitution_template(lines_text(c)) {
                Err(Failure::Template)
            } else {
                match rendered(lines_text(c), "table"@, self.table@) {
                    Some(r) => Ok(r.push('\n')),
                    None => Err(Failure::Template),
                }
            },
        }
    }

    /// The whole output for the sources: prefix, statements and suffix, or the first failure
    /// among the prefix, the CSV text and the suffix, in that order.
    pub open spec fn file_outcome(
        &self,
        args: &Arguments,
        csv: Seq<char>,
        prefix: Option<Seq<char>>,
        suffix: Option<Seq<char>>,
    ) -> Result<Seq<char>, Failure> {
        match self.content_outcome(prefix) {
            Err(f) => Err(f),
            Ok(p) => match csv_table(csv, args.delimiter, args.has_headers) {
                None => Err(Failure::MalformedInput),
                Some(t) => match self.content_outcome(suffix) {
                    Err(f) => Err(f),
                    Ok(x) => Ok(p + self.sql_text(self.fields_clause(args, t.0), t.1) + x),
                },
            },
        }
    }

    /// The rendered prefix or suffix: empty where there is no file.
    pub fn append_file_content(&self, content: &Option<String>) -> (r: Result<String, ConvertError>)
        ensures
            outcome_of(r) == self.content_outcome(content.deep_view()),
            content is None ==> (r matches Ok(s) && s@.len() == 0),
    {
        match content {
            None => Ok(String::new()),
            Some(text) => {
                let template = lines_of(text.as_str());
                if !is_substitution_template(template.as_str()) {
                    return Err(ConvertError::UnsupportedTemplate);
                }
                match render_template(template.as_str(), "table", self.table.as_str()) {
                    Ok(rendered) => {
                        let mut r = rendered;
                        push_char(&mut r, '\n');
                        Ok(r)
                    },
                    Err(e) => Err(ConvertError::Template(e)),
                }
            },
        }
    }

    /// The text of the SQL file for the sources: prefix, statements, suffix.
    pub fn generate_sql_file(&self, args: &Arguments, sources: &Sources) -> (r: Result<String, ConvertError>)
        ensures
            outcome_of(r) == self.file_outcome(
                args,
                sources.csv@,
                sources.prefix.deep_view(),
                sources.suffix.deep_view(),
            ),
    {
        let prefix = match self.append_file_content(&sources.prefix) {
            Ok(p) => p,
            Err(e) => return Err(e),
        };
        let table = match read_csv(sources.csv.as_str(), args.delimiter, args.has_headers) {
            Ok(t) => t,
            Err(e) => return Err(ConvertError::MalformedInput(e)),
        };
        let sql = self.generate_sql(args, &table.0, &table.1);
        let suffix = match self.append_file_content(&sources.suffix) {
            Ok(x) => x,
            Err(e) => return Err(e),
        };
        let mut r = prefix;
        r.append(sql.as_str());
        r.append(suffix.as_str());
        Ok(r)
    }

    /// The literal for `result`, its type read from its text.
    pub fn get_value(&self, result: &str) -> (value: String)
        ensures
            value@ == typed_literal(result@),
            result@.len() == 0 ==> value@ == "NULL"@,
            float_text(result@) ==> value@ == result@,
            boolean_text(result@) ==> value@ == result@,
            result@.len() > 0 && !float_text(result@) && !boolean_text(result@) ==> value@
                == string_literal(result@),
    {
        let mut value = String::new();
        if is_number(result) {
            value.append(result);
        } else if is_boolean(String::from_str(result)) {
            value.append(result);
        } else {
            if result.is_empty() {
                value.append("NULL");
            } else {
                push_string_literal(&mut value, result);
            }
        }
        value
    }

    /// The parenthesised, comma-separated literals of `record`.
    pub fn get_values(&self, record: &Vec<String>) -> (values: String)
        ensures
            values@ == self.values_text(record.deep_view()),
    {
        let ghost items = record.deep_view().map_values(|f: Seq<char>| self.literal(f));
        let mut values = String::new();
        let mut i: usize = 0;
        while i < record.len()
            invariant
                i <= record.len(),
                items == record.deep_view().map_values(|f: Seq<char>| self.literal(f)),
                values@ == joined(items.take(i as int), ", "@),
            decreases record.len() - i,
        {
            if i > 0 {
                values.append(", ");
            }
            let field = record[i].as_str();
            if self.typed {
                let v = self.get_value(field);
                values.append(v.as_str());
            } else {
                push_string_literal(&mut values, field);
            }
            assert(items.take(i + 1).drop_last() == items.take(i as int));
            i = i + 1;
        }
        assert(items.take(record.len() as int) == items);
        let mut r = String::new();
        r.append("(");
        r.append(values.as_str());
        r.append(")");
        r
    }
}

proof fn lemma_next_quotient(x: int, d: int)
    requires
        x >= 0,
        d > 0,
    ensures
        (x + 1) / d == x / d + if (x + 1) % d == 0 {
            1int
        } else {
            0int
        },
{
    lemma_fundamental_div_mod(x, d);
    let q = x / d;
    let r = x % d;
    if r == d - 1 {
        assert(x + 1 == (q + 1) * d + 0) by (nonlinear_arith)
            requires
                x == d * q + r,
                r == d - 1,
        ;
        lemma_fundamental_div_mod_converse(x + 1, d, q + 1, 0);
    } else {
        assert(x + 1 == q * d + (r + 1)) by (nonlinear_arith)
            requires
                x == d * q + r,
        ;
        lemma_fundamental_div_mod_converse(x + 1, d, q, r + 1);
    }
}

proof fn lemma_shifted_residue(x: int, d: int)
    requires
        x >= 0,
        d > 0,
    ensures
        (x + d) % d == x % d,
{
    lemma_fundamental_div_mod(x, d);
    assert(x + d == (x / d + 1) * d + x % d) by (nonlinear_arith)
        requires
            x == d * (x / d) + x % d,
    ;
    lemma_fundamental_div_mod_converse(x + d, d, x / d + 1, x % d);
}

/// Rows are batched `chunk_insert` to an insert statement: record `i` opens a statement
/// exactly when `i` is a multiple of `chunk_insert`, it stands in statement
/// `i / chunk_insert`, and `n` records fill `n / chunk_insert` statements, rounded up.
pub proof fn lemma_rows_per_statement(t: &TargetSql, n: nat)
    requires
        t.chunk_insert > 0,
    ensures
        forall|i: int|
            0 <= i < n ==> (#[trigger] t.starts_statement(i) <==> i % (t.chunk_insert as int) == 0)
                && t.statement_index(i) == i / (t.chunk_insert as int),
        t.statement_count(n) == (n + t.chunk_insert - 1) / (t.chunk_insert as int),
    decreases n,
{
    let c = t.chunk_insert as int;
    if n == 0 {
        lemma_fundamental_div_mod_converse(c - 1, c, 0, c - 1);
    } else {
        lemma_rows_per_statement(t, (n - 1) as nat);
        lemma_next_quotient(n + c - 2, c);
        lemma_shifted_residue(n - 1, c);
        assert(n + c - 2 + 1 == n + c - 1);
        assert(n - 1 + c == n + c - 1);
    }
}

/// Without row batching every record is a statement of its own.
pub proof fn lemma_one_row_per_statement(t: &TargetSql, n: nat)
    requires
        t.chunk_insert == 0,
    ensures
        forall|i: int| 0 <= i < n ==> #[trigger] t.starts_statement(i) && t.statement_index(i) == i,
        t.statement_count(n) == n,
    decreases n,
{
    if n > 0 {
        lemma_one_row_per_statement(t, (n - 1) as nat);
    }
}

/// Statements are grouped `chunk` to a transaction: a commit and a new `begin transaction`
/// come before statement `s` exactly when `s` is a non-zero multiple of `chunk`, so `m > 0`
/// statements see `(m - 1) / chunk` of them, and with the `begin transaction` at the start
/// and the commit at the end stand in `m / chunk` transactions, rounded up.
pub proof fn lemma_statements_per_transaction(t: &TargetSql, m: nat)
    requires
        t.chunk > 0,
        m > 0,
    ensures
        t.in_transaction(),
        forall|s: int|
            0 <= s < m ==> (#[trigger] t.reopens_transaction(s) <==> s > 0 && s % (t.chunk as int)
                == 0),
        t.reopen_count(m) == (m - 1) / (t.chunk as int),
        t.reopen_count(m) + 1 == (m + t.chunk - 1) / (t.chunk as int),
    decreases m,
{
    let k = t.chunk as int;
    if m == 1 {
        lemma_fundamental_div_mod_converse(0, k, 0, 0);
        assert(t.reopen_count(0) == 0);
        assert(!t.reopens_transaction(0));
        assert(t.reopen_count(1) == 0);
    } else {
        let p = (m - 1) as nat;
        lemma_statements_per_transaction(t, p);
        lemma_next_quotient(m - 2, k);
        assert(t.reopen_count(p) == (m - 2) / k);
        assert(t.reopens_transaction(m - 1) <==> (m - 1) % k == 0);
        assert(t.reopen_count(m) == t.reopen_count(p) + if t.reopens_transaction(m - 1) {
            1nat
        } else {
            0nat
        });
    }
    lemma_fundamental_div_mod(m - 1, k);
    assert(m + k - 1 == (((m - 1) / k) + 1) * k + (m - 1) % k) by (nonlinear_arith)
        requires
            m - 1 == k * ((m - 1) / k) + (m - 1) % k,
    ;
    lemma_fundamental_div_mod_converse(m + k - 1, k, (m - 1) / k + 1, (m - 1) % k);
}

/// An empty field is written `NULL` when values are typed, and as the empty string
/// literal `''` when they are not.
pub proof fn lemma_empty_field(t: &TargetSql)
    ensures
        t.typed ==> t.literal(seq![]) == "NULL"@,
        !t.typed ==> t.literal(seq![]) == seq!['\'', '\''],
{
    assert(!spells_ignoring_case(seq![], seq!['i', 'n', 'f']));
    assert(!spells_ignoring_case(seq![], seq!['i', 'n', 'f', 'i', 'n', 'i', 't', 'y']));
    assert(!spells_ignoring_case(seq![], seq!['n', 'a', 'n']));
    assert(!spells_ignoring_case(seq![], seq!['t', 'r', 'u', 'e']));
    assert(!spells_ignoring_case(seq![], seq!['f', 'a', 'l', 's', 'e']));
    assert(quote_doubled(seq![]) == Seq::<char>::empty());
    assert(string_literal(seq![]) =~= seq!['\'', '\'']);
}

/// Converting the same sources with the same configuration twice gives the same text, or
/// fails the same way both times.
pub proof fn lemma_conversion_repeatable(
    t: &TargetSql,
    args: &Arguments,
    sources: &Sources,
    first: Result<String, ConvertError>,
    second: Result<String, ConvertError>,
)
    requires
        outcome_of(first) == t.file_outcome(
            args,
            sources.csv@,
            sources.prefix.deep_view(),
            sources.suffix.deep_view(),
        ),
        outcome_of(second) == t.file_outcome(
            args,
            sources.csv@,
            sources.prefix.deep_view(),
            sources.suffix.deep_view(),
        ),
    ensures
        outcome_of(first) == outcome_of(second),
{
}

impl Target for TargetSql {
    fn convert(&self, args: &Arguments, sources: &Sources) -> (r: Result<Option<String>, ConvertError>)
        ensures
            match r {
                Ok(Some(s)) => self.file_outcome(
                    args,
                    sources.csv@,
                    sources.prefix.deep_view(),
                    sources.suffix.deep_view(),
                ) == Ok::<Seq<char>, Failure>(s@),
                Ok(None) => false,
                Err(e) => self.file_outcome(
                    args,
                    sources.csv@,
                    sources.prefix.deep_view(),
                    sources.suffix.deep_view(),
                ) == Err::<Seq<char>, Failure>(e.failure()),
            },
    {
        match self.generate_sql_file(args, sources) {
            Ok(s) => Ok(Some(s)),
            Err(e) => Err(e),
        }
    }
}

} // verus!
