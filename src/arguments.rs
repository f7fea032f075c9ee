//! Building the configuration from the values given on the command line.
use vstd::prelude::*;
use crate::number::{all_digits, is_digit};
use crate::text::{chars_of, same_text, slice_chars, string_of};
use crate::Arguments;

verus! {

/// The index of the last `c` in `s`, if there is one.
pub open spec fn last_index_of(s: Seq<char>, c: char) -> Option<int>
    decreases s.len(),
{
    if s.len() == 0 {
        None
    } else if s.last() == c {
        Some(s.len() - 1)
    } else {
        last_index_of(s.drop_last(), c)
    }
}

/// The last component of `path`: the part after its last `/`, or all of it without one.
pub open spec fn file_name(path: Seq<char>) -> Seq<char> {
    match last_index_of(path, '/') {
        None => path,
        Some(slash) => path.skip(slash + 1),
    }
}

/// The file name of `path` without its extension: the file name up to its last `.`, or
/// the whole file name where it has no `.`.
pub open spec fn file_stem(path: Seq<char>) -> Seq<char> {
    let name = file_name(path);
    match last_index_of(name, '.') {
        None => name,
        Some(dot) => name.take(dot),
    }
}

proof fn lemma_last_index_bounds(s: Seq<char>, c: char)
    ensures
        last_index_of(s, c) matches Some(i) ==> 0 <= i < s.len() && s[i] == c,
    decreases s.len(),
{
    if s.len() > 0 && s.last() != c {
        lemma_last_index_bounds(s.drop_last(), c);
    }
}

fn last_index(v: &Vec<char>, c: char) -> (r: Option<usize>)
    ensures
        r matches Some(i) ==> last_index_of(v@, c) == Some(i as int),
        r is None ==> last_index_of(v@, c) is None,
{
    let mut n: usize = v.len();
    assert(v@.take(n as int) == v@);
    while n > 0
        invariant
            n <= v.len(),
            last_index_of(v@, c) == last_index_of(v@.take(n as int), c),
        decreases n,
    {
        assert(v@.take(n as int).drop_last() == v@.take(n - 1));
        if v[n - 1] == c {
            return Some(n - 1);
        }
        n = n - 1;
    }
    None
}

/// The file name of `csv_file_name` without its directories and its extension.
pub fn get_file_name_without_extension(csv_file_name: &String) -> (r: String)
    ensures
        r@ == file_stem(csv_file_name@),
{
    let v = chars_of(csv_file_name.as_str());
    proof {
        lemma_last_index_bounds(v@, '/');
    }
    let name = match last_index(&v, '/') {
        None => slice_chars(&v, 0, v.len()),
        Some(slash) => slice_chars(&v, slash + 1, v.len()),
    };
    assert(name@ == file_name(v@)) by {
        assert(v@.subrange(0, v.len() as int) == v@);
    }
    proof {
        lemma_last_index_bounds(name@, '.');
    }
    match last_index(&name, '.') {
        None => string_of(&name),
        Some(dot) => string_of(&slice_chars(&name, 0, dot)),
    }
}

/// The value of a digit.
pub open spec fn digit_value(c: char) -> nat {
    (c as u32 - '0' as u32) as nat
}

/// The number that the decimal digits `s` write.
pub open spec fn decimal_value(s: Seq<char>) -> nat
    decreases s.len(),
{
    if s.len() == 0 {
        0
    } else {
        decimal_value(s.drop_last()) * 10 + digit_value(s.last())
    }
}

/// What `str::parse::<usize>` gives: an optional `+` and at least one digit, whose value fits.
pub open spec fn count_value(s: Seq<char>) -> Option<usize> {
    let d = if s.len() > 0 && s[0] == '+' {
        s.drop_first()
    } else {
        s
    };
    if d.len() > 0 && all_digits(d) && decimal_value(d) <= usize::MAX {
        Some(decimal_value(d) as usize)
    } else {
        None
    }
}

/// What `str::parse::<bool>` gives: `true` and `false` exactly.
pub open spec fn flag_value(s: Seq<char>) -> Option<bool> {
    if s == "true"@ {
        Some(true)
    } else if s == "false"@ {
        Some(false)
    } else {
        None
    }
}

proof fn lemma_prefix_value_le(d: Seq<char>, i: int)
    requires
        0 <= i <= d.len(),
    ensures
        decimal_value(d.take(i)) <= decimal_value(d),
    decreases d.len(),
{
    if i < d.len() {
        lemma_prefix_value_le(d.drop_last(), i);
        assert(d.drop_last().take(i) == d.take(i));
    } else {
        assert(d.take(i) == d);
    }
}

/// Reads a count the way `str::parse::<usize>` does.
pub fn parse_count(s: &str) -> (r: Option<usize>)
    ensures
        r == count_value(s@),
{
    let v = chars_of(s);
    let start: usize = if v.len() > 0 && v[0] == '+' {
        1
    } else {
        0
    };
    let d = slice_chars(&v, start, v.len());
    assert(d@ == (if s@.len() > 0 && s@[0] == '+' {
        s@.drop_first()
    } else {
        s@
    }));
    if d.len() == 0 {
        return None;
    }
    let ghost outcome = if all_digits(d@) && decimal_value(d@) <= usize::MAX {
        Some(decimal_value(d@) as usize)
    } else {
        None
    };
    assert(count_value(s@) == outcome);
    let mut value: usize = 0;
    let mut i: usize = 0;
    while i < d.len()
        invariant
            i <= d.len(),
            value as nat == decimal_value(d@.take(i as int)),
            forall|j: int| 0 <= j < i ==> is_digit(#[trigger] d@[j]),
            count_value(s@) == outcome,
            outcome == (if all_digits(d@) && decimal_value(d@) <= usize::MAX {
                Some(decimal_value(d@) as usize)
            } else {
                None
            }),
        decreases d.len() - i,
    {
        let c = d[i];
        assert(d@.take(i + 1).drop_last() == d@.take(i as int));
        if !('0' <= c && c <= '9') {
            assert(!is_digit(d@[i as int]));
            assert(!all_digits(d@));
            return None;
        }
        let digit: usize = ((c as u32) - ('0' as u32)) as usize;
        assert(decimal_value(d@.take(i + 1)) == value * 10 + digit);
        if value > (usize::MAX - digit) / 10 {
            assert(value * 10 + digit > usize::MAX) by (nonlinear_arith)
                requires
                    value > (usize::MAX - digit) / 10,
                    digit <= 9,
            ;
            proof {
                lemma_prefix_value_le(d@, i + 1);
            }
            assert(decimal_value(d@) > usize::MAX);
            return None;
        }
        assert(value * 10 + digit <= usize::MAX) by (nonlinear_arith)
            requires
                value <= (usize::MAX - digit) / 10,
                digit <= 9,
        ;
        value = value * 10 + digit;
        i = i + 1;
    }
    assert(d@.take(d.len() as int) == d@);
    Some(value)
}

/// Reads a flag the way `str::parse::<bool>` does.
pub fn parse_flag(s: &str) -> (r: Option<bool>)
    ensures
        r == flag_value(s@),
{
    if same_text(s, "true") {
        Some(true)
    } else if same_text(s, "false") {
        Some(false)
    } else {
        None
    }
}

/// The byte of `,`.
pub const COMMA: u8 = 44;

/// The byte of `;`.
pub const SEMICOLON: u8 = 59;

/// The byte of a tab.
pub const TAB: u8 = 9;

/// The option values given on the command line; `None` where an option was left out.
pub struct CommandLine {
    pub source: String,
    pub target: Option<String>,
    pub target_type: Option<String>,
    pub delimiter: Option<String>,
    pub headers: Option<String>,
    pub table: Option<String>,
    pub columns: Option<Vec<String>>,
    pub chunk: Option<String>,
    pub chunk_insert: Option<String>,
    pub prefix: Option<String>,
    pub suffix: Option<String>,
    pub with_transaction: Option<String>,
    pub typed: Option<String>,
}

/// Why the command line gives no configuration.
#[derive(PartialEq, Eq, Structural, Clone, Copy, Debug)]
pub enum ArgumentError {
    /// The delimiter is none of `comma`, `semicolon` and `tab`.
    InvalidDelimiter,
    /// A flag is neither `true` nor `false`.
    InvalidFlag,
    /// A chunk size is not a count.
    InvalidCount,
    /// The source has no header record and no columns are named.
    MissingColumns,
}

/// The given text, or `default` where none was given.
pub open spec fn text_or(o: Option<Seq<char>>, default: Seq<char>) -> Seq<char> {
    match o {
        Some(t) => t,
        None => default,
    }
}

/// The delimiter byte that a delimiter name stands for; a comma where none was given.
pub open spec fn delimiter_byte(o: Option<Seq<char>>) -> Option<u8> {
    match o {
        None => Some(COMMA),
        Some(d) => if d == "comma"@ {
            Some(COMMA)
        } else if d == "semicolon"@ {
            Some(SEMICOLON)
        } else if d == "tab"@ {
            Some(TAB)
        } else {
            None
        },
    }
}

/// A flag's value, `default` where none was given.
pub open spec fn flag_option(o: Option<Seq<char>>, default: bool) -> Option<bool> {
    match o {
        None => Some(default),
        Some(s) => flag_value(s),
    }
}

/// A count's value, 0 where none was given.
pub open spec fn count_option(o: Option<Seq<char>>) -> Option<usize> {
    match o {
        None => Some(0),
        Some(s) => count_value(s),
    }
}

/// The column names given, none where the option was left out.
pub open spec fn column_names(line: &CommandLine) -> Seq<Seq<char>> {
    match line.columns {
        Some(c) => c.deep_view(),
        None => seq![],
    }
}

/// The first option, in the order they are read, whose value is refused.
pub open spec fn argument_error(line: &CommandLine) -> Option<ArgumentError> {
    let chunk = count_option(line.chunk.deep_view());
    if delimiter_byte(line.delimiter.deep_view()) is None {
        Some(ArgumentError::InvalidDelimiter)
    } else if flag_option(line.headers.deep_view(), true) is None {
        Some(ArgumentError::InvalidFlag)
    } else if chunk is None {
        Some(ArgumentError::InvalidCount)
    } else if count_option(line.chunk_insert.deep_view()) is None {
        Some(ArgumentError::InvalidCount)
    } else if chunk == Some(0usize) && flag_option(line.with_transaction.deep_view(), false) is None {
        Some(ArgumentError::InvalidFlag)
    } else if flag_option(line.typed.deep_view(), false) is None {
        Some(ArgumentError::InvalidFlag)
    } else if flag_option(line.headers.deep_view(), true) == Some(false) && column_names(line).len()
        == 0 {
        Some(ArgumentError::MissingColumns)
    } else {
        None
    }
}

/// The configuration that `line` gives, where `argument_error` finds nothing to refuse.
pub open spec fn configures(line: &CommandLine, a: &Arguments) -> bool {
    &&& a.source@ == line.source@
    &&& a.target@ == text_or(line.target.deep_view(), file_stem(line.source@) + ".sql"@)
    &&& a.target_type@ == text_or(line.target_type.deep_view(), "sql"@)
    &&& delimiter_byte(line.delimiter.deep_view()) == Some(a.delimiter)
    &&& flag_option(line.headers.deep_view(), true) == Some(a.has_headers)
    &&& a.table@ == text_or(line.table.deep_view(), file_stem(line.source@))
    &&& a.columns.deep_view() == column_names(line)
    &&& count_option(line.chunk.deep_view()) == Some(a.chunk)
    &&& count_option(line.chunk_insert.deep_view()) == Some(a.chunk_insert)
    &&& a.prefix@ == text_or(line.prefix.deep_view(), seq![])
    &&& a.suffix@ == text_or(line.suffix.deep_view(), seq![])
    &&& a.with_transaction == (a.chunk > 0 || flag_option(line.with_transaction.deep_view(), false)
        == Some(true))
    &&& flag_option(line.typed.deep_view(), false) == Some(a.typed)
}

fn given_or(o: &Option<String>, default: String) -> (r: String)
    ensures
        r@ == text_or(o.deep_view(), default@),
{
    match o {
        Some(t) => t.clone(),
        None => default,
    }
}

fn flag_or(o: &Option<String>, default: bool) -> (r: Option<bool>)
    ensures
        r == flag_option(o.deep_view(), default),
{
    match o {
        Some(t) => parse_flag(t.as_str()),
        None => Some(default),
    }
}

fn count_or_zero(o: &Option<String>) -> (r: Option<usize>)
    ensures
        r == count_option(o.deep_view()),
{
    match o {
        Some(t) => parse_count(t.as_str()),
        None => Some(0),
    }
}

fn delimiter_of(o: &Option<String>) -> (r: Option<u8>)
    ensures
        r == delimiter_byte(o.deep_view()),
{
    match o {
        None => Some(COMMA),
        Some(d) => if same_text(d.as_str(), "comma") {
            Some(COMMA)
        } else if same_text(d.as_str(), "semicolon") {
            Some(SEMICOLON)
        } else if same_text(d.as_str(), "tab") {
            Some(TAB)
        } else {
            None
        },
    }
}

fn copy_names(names: &Vec<String>) -> (r: Vec<String>)
    ensures
        r.deep_view() == names.deep_view(),
{
    let mut r: Vec<String> = Vec::new();
    for i in 0..names.len()
        invariant
            r.len() == i,
            forall|j: int| 0 <= j < i ==> (#[trigger] r@[j])@ == names@[j]@,
    {
        r.push(names[i].clone());
    }
    assert(r.deep_view() =~= names.deep_view());
    r
}

/// The configuration that the command line gives, with the defaults for what it leaves out.
pub fn arguments_from_console(line: &CommandLine) -> (r: Result<Arguments, ArgumentError>)
    ensures
        match r {
            Ok(a) => argument_error(line) is None && configures(line, &a),
            Err(e) => argument_error(line) == Some(e),
        },
{
    let delimiter = match delimiter_of(&line.delimiter) {
        Some(d) => d,
        None => return Err(ArgumentError::InvalidDelimiter),
    };
    let has_headers = match flag_or(&line.headers, true) {
        Some(h) => h,
        None => return Err(ArgumentError::InvalidFlag),
    };
    let chunk = match count_or_zero(&line.chunk) {
        Some(c) => c,
        None => return Err(ArgumentError::InvalidCount),
    };
    let chunk_insert = match count_or_zero(&line.chunk_insert) {
        Some(c) => c,
        None => return Err(ArgumentError::InvalidCount),
    };
    let with_transaction = if chunk > 0 {
        true
    } else {
        match flag_or(&line.with_transaction, false) {
            Some(w) => w,
            None => return Err(ArgumentError::InvalidFlag),
        }
    };
    let typed = match flag_or(&line.typed, false) {
        Some(t) => t,
        None => return Err(ArgumentError::InvalidFlag),
    };
    let columns = match &line.columns {
        Some(c) => copy_names(c),
        None => Vec::new(),
    };
    assert(columns.deep_view() =~= column_names(line));
    if !has_headers && columns.len() == 0 {
        return Err(ArgumentError::MissingColumns);
    }
    let stem = get_file_name_without_extension(&line.source);
    let mut default_target = stem.clone();
    default_target.append(".sql");
    Ok(Arguments {
        source: line.source.clone(),
        target: given_or(&line.target, default_target),
        target_type: given_or(&line.target_type, String::from_str("sql")),
        delimiter,
        has_headers,
        table: given_or(&line.table, stem),
        columns,
        chunk,
        chunk_insert,
        prefix: given_or(&line.prefix, String::new()),
        suffix: given_or(&line.suffix, String::new()),
        with_transaction,
        typed,
    })
}

} // verus!
