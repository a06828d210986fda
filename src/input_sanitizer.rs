//! Validation and escaping of values bound for database queries.
use vstd::prelude::*;

use crate::provider::common::{prefixed, push_char};

verus! {

/// Why an input was refused.
#[derive(Debug, Clone)]
pub enum ValidationError {
    InvalidOid(String),
    InvalidColumn(String),
    InvalidLimit(String),
    InvalidOffset(String),
    InvalidNumeric(String),
    SqlInjectionDetected(String),
}

impl ValidationError {
    /// The human-readable text of the error.
    pub open spec fn spec_message(&self) -> Seq<char> {
        match self {
            ValidationError::InvalidOid(m) => "Invalid OID: "@ + m@,
            ValidationError::InvalidColumn(m) => "Invalid column: "@ + m@,
            ValidationError::InvalidLimit(m) => "Invalid limit: "@ + m@,
            ValidationError::InvalidOffset(m) => "Invalid offset: "@ + m@,
            ValidationError::InvalidNumeric(m) => "Invalid numeric value: "@ + m@,
            ValidationError::SqlInjectionDetected(m) => "SQL injection attempt detected: "@ + m@,
        }
    }

    /// Renders the error as text, e.g. `Invalid limit: Limit must be greater than 0`.
    pub fn message(&self) -> (r: String)
        ensures
            r@ == self.spec_message(),
    {
        match self {
            ValidationError::InvalidOid(m) => prefixed("Invalid OID: ", m),
            ValidationError::InvalidColumn(m) => prefixed("Invalid column: ", m),
            ValidationError::InvalidLimit(m) => prefixed("Invalid limit: ", m),
            ValidationError::InvalidOffset(m) => prefixed("Invalid offset: ", m),
            ValidationError::InvalidNumeric(m) => prefixed("Invalid numeric value: ", m),
            ValidationError::SqlInjectionDetected(m) => prefixed(
                "SQL injection attempt detected: ",
                m,
            ),
        }
    }
}

/// Whether `char::is_alphanumeric` holds of a character (Unicode
/// alphabetic or numeric).
pub uninterp spec fn is_alnum(c: char) -> bool;

/// Relies on `char::is_alphanumeric`: whether the character is Unicode
/// alphabetic or numeric.
#[verifier::external_body]
fn char_is_alphanumeric(c: char) -> (r: bool)
    ensures
        r == is_alnum(c),
{
    c.is_alphanumeric()
}

/// A character an OID may hold: alphanumeric, `_` or `-`.
pub open spec fn oid_char(c: char) -> bool {
    is_alnum(c) || c == '_' || c == '-'
}

/// The most bytes an OID may have.
pub const MAX_OID_BYTES: usize = 255;

/// The largest accepted limit.
pub const MAX_LIMIT: usize = 1000;

/// The largest accepted offset.
pub const MAX_OFFSET: usize = 100000;

/// Validation of the inputs of database queries.
pub struct InputSanitizer;

impl InputSanitizer {
    /// An OID is non-empty, at most 255 bytes long, and made of
    /// alphanumeric characters, underscores and hyphens.
    pub fn validate_oid(oid: &str) -> (r: bool)
        ensures
            r == (oid@.len() > 0 && oid.len() <= MAX_OID_BYTES && forall|i: int|
                0 <= i < oid@.len() ==> oid_char(#[trigger] oid@[i])),
    {
        if oid.is_empty() || oid.len() > MAX_OID_BYTES {
            return false;
        }
        let n = oid.unicode_len();
        let mut i: usize = 0;
        while i < n
            invariant
                n == oid@.len(),
                i <= n,
                forall|j: int| 0 <= j < i ==> oid_char(#[trigger] oid@[j]),
            decreases n - i,
        {
            let c = oid.get_char(i);
            if !(char_is_alphanumeric(c) || c == '_' || c == '-') {
                return false;
            }
            i += 1;
        }
        true
    }

    /// A column is accepted only when it is one of `valid_columns`.
    pub fn validate_order_column(column: &str, valid_columns: &[&str]) -> (r: bool)
        ensures
            r == exists|i: int| 0 <= i < valid_columns@.len() && (#[trigger] valid_columns@[i])@ == column@,
    {
        let wanted = String::from_str(column);
        let mut i: usize = 0;
        while i < valid_columns.len()
            invariant
                i <= valid_columns@.len(),
                wanted@ == column@,
                forall|j: int| 0 <= j < i ==> (#[trigger] valid_columns@[j])@ != column@,
            decreases valid_columns@.len() - i,
        {
            let candidate = String::from_str(valid_columns[i]);
            if candidate == wanted {
                return true;
            }
            i += 1;
        }
        false
    }

    /// A limit lies between 1 and 1000.
    pub fn validate_limit(limit: usize) -> (r: Result<usize, ValidationError>)
        ensures
            1 <= limit <= MAX_LIMIT ==> r == Ok::<usize, ValidationError>(limit),
            limit == 0 ==> (r matches Err(ValidationError::InvalidLimit(m)) && m@
                == "Limit must be greater than 0"@),
            limit > MAX_LIMIT ==> (r matches Err(ValidationError::InvalidLimit(m)) && m@
                == "Limit cannot exceed 1000"@),
    {
        if limit == 0 {
            return Err(ValidationError::InvalidLimit(String::from_str("Limit must be greater than 0")));
        }
        if limit > MAX_LIMIT {
            return Err(ValidationError::InvalidLimit(String::from_str("Limit cannot exceed 1000")));
        }
        Ok(limit)
    }

    /// An offset is at most 100000.
    pub fn validate_offset(offset: usize) -> (r: Result<usize, ValidationError>)
        ensures
            offset <= MAX_OFFSET ==> r == Ok::<usize, ValidationError>(offset),
            offset > MAX_OFFSET ==> (r matches Err(ValidationError::InvalidOffset(m)) && m@
                == "Offset cannot exceed 100000"@),
    {
        if offset > MAX_OFFSET {
            return Err(ValidationError::InvalidOffset(String::from_str("Offset cannot exceed 100000")));
        }
        Ok(offset)
    }
}

/// What one character becomes when escaped: a backslash before `\`, `'`
/// and `"`; `\0`, `\n`, `\r` and `\x1a` written as `\0`, `\n`, `\r`, `\Z`.
pub open spec fn escape_char(c: char) -> Seq<char> {
    if c == '\\' {
        seq!['\\', '\\']
    } else if c == '\'' {
        seq!['\\', '\'']
    } else if c == '"' {
        seq!['\\', '"']
    } else if c == '\0' {
        seq!['\\', '0']
    } else if c == '\n' {
        seq!['\\', 'n']
    } else if c == '\r' {
        seq!['\\', 'r']
    } else if c == '\x1a' {
        seq!['\\', 'Z']
    } else {
        seq![c]
    }
}

/// The text with every character escaped.
pub open spec fn escaped(s: Seq<char>) -> Seq<char>
    decreases s.len(),
{
    if s.len() == 0 {
        Seq::empty()
    } else {
        escaped(s.drop_last()) + escape_char(s.last())
    }
}

/// Whether `needle` occurs in `hay`.
pub open spec fn contains_text(hay: Seq<char>, needle: Seq<char>) -> bool {
    exists|i: int| 0 <= i && i + needle.len() <= hay.len() && #[trigger] hay.subrange(i, i + needle.len()) == needle
}

/// Whether `needle` occurs in `hay`.
pub fn text_contains(hay: &str, needle: &str) -> (r: bool)
    ensures
        r == contains_text(hay@, needle@),
{
    let h = hay.unicode_len();
    let n = needle.unicode_len();
    if n > h {
        proof {
            assert forall|i: int| 0 <= i && i + needle@.len() <= hay@.len() implies #[trigger] hay@.subrange(
                i,
                i + needle@.len(),
            ) != needle@ by {}
        }
        return false;
    }
    if n == 0 {
        proof {
            assert(hay@.subrange(0int, 0int + needle@.len()) =~= needle@);
        }
        return true;
    }
    let mut i: usize = 0;
    while i <= h - n
        invariant
            h == hay@.len(),
            n == needle@.len(),
            1 <= n <= h,
            i <= h - n + 1,
            forall|k: int| 0 <= k < i ==> #[trigger] hay@.subrange(k, k + n) != needle@,
        decreases h - n + 1 - i,
    {
        let mut j: usize = 0;
        let mut same = true;
        while j < n && same
            invariant
                h == hay@.len(),
                n == needle@.len(),
                i + n <= h,
                j <= n,
                same ==> forall|q: int| 0 <= q < j ==> hay@[i + q] == needle@[q],
                !same ==> hay@.subrange(i as int, i + n) != needle@,
            decreases n - j + (if same { 1int } else { 0int }),
        {
            if hay.get_char(i + j) != needle.get_char(j) {
                proof {
                    assert(hay@.subrange(i as int, i + n)[j as int] == hay@[i + j]);
                }
                same = false;
            } else {
                j += 1;
            }
        }
        if same {
            proof {
                assert(hay@.subrange(i as int, i + n) =~= needle@);
            }
            return true;
        }
        i += 1;
    }
    false
}

/// The words whose presence marks an input as suspicious.
pub open spec fn sql_keywords() -> Seq<Seq<char>> {
    seq![
        "DROP"@,
        "DELETE"@,
        "INSERT"@,
        "UPDATE"@,
        "EXEC"@,
        "EXECUTE"@,
        "UNION"@,
        "SELECT"@,
        "CREATE"@,
        "ALTER"@,
        "TRUNCATE"@,
        "--"@,
        "/*"@,
        "*/"@,
        "xp_"@,
        "sp_"@,
        "0x"@,
    ]
}

/// No suspicious word occurs in `s`.
pub open spec fn free_of_keywords(s: Seq<char>) -> bool {
    forall|k: int| 0 <= k < sql_keywords().len() ==> !contains_text(s, #[trigger] sql_keywords()[k])
}

/// What `str::to_uppercase` makes of a text.
pub uninterp spec fn upper_of(s: Seq<char>) -> Seq<char>;

/// Relies on `str::to_uppercase`: the upper-case form of the text, which
/// depends on the text alone.
#[verifier::external_body]
fn uppercase(s: &str) -> (r: String)
    ensures
        r@ == upper_of(s@),
{
    s.to_uppercase()
}

/// The text an `i64` written in decimal denotes: an optional `+` or `-`
/// followed by one or more ASCII digits.
pub open spec fn decimal_value(s: Seq<char>) -> Option<int> {
    if s.len() > 0 && s[0] == '-' && all_digits(s.drop_first()) {
        Some(-digits_value(s.drop_first()))
    } else if s.len() > 0 && s[0] == '+' && all_digits(s.drop_first()) {
        Some(digits_value(s.drop_first()))
    } else if all_digits(s) {
        Some(digits_value(s))
    } else {
        None
    }
}

/// A non-empty run of ASCII digits.
pub open spec fn all_digits(s: Seq<char>) -> bool {
    s.len() > 0 && forall|i: int| 0 <= i < s.len() ==> '0' <= #[trigger] s[i] <= '9'
}

/// The number a run of ASCII digits denotes.
pub open spec fn digits_value(s: Seq<char>) -> int
    decreases s.len(),
{
    if s.len() == 0 {
        0
    } else {
        digits_value(s.drop_last()) * 10 + (s.last() as int - '0' as int)
    }
}

/// The `i64` a text denotes, if it denotes one in range.
pub open spec fn parsed_i64(s: Seq<char>) -> Option<i64> {
    match decimal_value(s) {
        Some(v) => if i64::MIN <= v <= i64::MAX {
            Some(v as i64)
        } else {
            None
        },
        None => None,
    }
}

/// Relies on `<i64 as FromStr>::from_str`, which accepts an optional sign
/// followed by decimal digits and refuses values out of range.
#[verifier::external_body]
fn parse_i64(s: &str) -> (r: Option<i64>)
    ensures
        r == parsed_i64(s@),
{
    s.parse::<i64>().ok()
}

impl InputSanitizer {
    /// Escapes the characters that could end or alter a quoted SQL string.
    pub fn escape_string(input: &str) -> (r: String)
        ensures
            r@ == escaped(input@),
    {
        let n = input.unicode_len();
        let mut out = String::new();
        let mut i: usize = 0;
        while i < n
            invariant
                n == input@.len(),
                i <= n,
                out@ == escaped(input@.take(i as int)),
            decreases n - i,
        {
            let c = input.get_char(i);
            let ghost before = out@;
            if c == '\\' || c == '\'' || c == '"' {
                push_char(&mut out, '\\');
                push_char(&mut out, c);
            } else if c == '\0' {
                push_char(&mut out, '\\');
                push_char(&mut out, '0');
            } else if c == '\n' {
                push_char(&mut out, '\\');
                push_char(&mut out, 'n');
            } else if c == '\r' {
                push_char(&mut out, '\\');
                push_char(&mut out, 'r');
            } else if c == '\x1a' {
                push_char(&mut out, '\\');
                push_char(&mut out, 'Z');
            } else {
                push_char(&mut out, c);
            }
            proof {
                assert(input@.take(i + 1).drop_last() =~= input@.take(i as int));
                assert(out@ =~= before + escape_char(c));
            }
            i += 1;
        }
        proof {
            assert(input@.take(n as int) =~= input@);
        }
        out
    }

    /// Whether upper-cased text holds none of the suspicious words.
    pub fn upper_text_is_clean(upper: &str) -> (r: bool)
        ensures
            r == free_of_keywords(upper@),
    {
        let keywords = vec![
            "DROP",
            "DELETE",
            "INSERT",
            "UPDATE",
            "EXEC",
            "EXECUTE",
            "UNION",
            "SELECT",
            "CREATE",
            "ALTER",
            "TRUNCATE",
            "--",
            "/*",
            "*/",
            "xp_",
            "sp_",
            "0x",
        ];
        proof {
            assert(keywords@.len() == sql_keywords().len());
            assert forall|k: int| 0 <= k < keywords@.len() implies #[trigger] keywords@[k]@
                == sql_keywords()[k] by {}
        }
        let mut k: usize = 0;
        while k < keywords.len()
            invariant
                k <= keywords@.len(),
                keywords@.len() == sql_keywords().len(),
                forall|q: int| 0 <= q < keywords@.len() ==> #[trigger] keywords@[q]@ == sql_keywords()[q],
                forall|q: int| 0 <= q < k ==> !contains_text(upper@, #[trigger] sql_keywords()[q]),
            decreases keywords@.len() - k,
        {
            if text_contains(upper, keywords[k]) {
                return false;
            }
            k += 1;
        }
        true
    }

    /// Whether the input, upper-cased, holds none of the suspicious words.
    pub fn check_for_sql_keywords(input: &str) -> (r: bool)
        ensures
            r == free_of_keywords(upper_of(input@)),
    {
        let upper = uppercase(input);
        InputSanitizer::upper_text_is_clean(upper.as_str())
    }

    /// The `i64` the input denotes, or `InvalidNumeric`.
    pub fn sanitize_numeric(input: &str) -> (r: Result<i64, ValidationError>)
        ensures
            parsed_i64(input@) matches Some(v) ==> r == Ok::<i64, ValidationError>(v),
            parsed_i64(input@) is None ==> (r matches Err(ValidationError::InvalidNumeric(m)) && m@
                == "'"@ + input@ + "' is not a valid number"@),
    {
        match parse_i64(input) {
            Some(v) => Ok(v),
            None => {
                let mut m = String::from_str("'");
                m.append(input);
                m.append("' is not a valid number");
                Err(ValidationError::InvalidNumeric(m))
            },
        }
    }
}

/// The conditions `validate_oid` checks.
pub open spec fn oid_valid(oid: &str) -> bool {
    oid@.len() > 0 && oid.len() <= MAX_OID_BYTES && forall|i: int|
        0 <= i < oid@.len() ==> oid_char(#[trigger] oid@[i])
}

/// Validation of every query input at once.
pub struct DatabaseInputValidator;

impl DatabaseInputValidator {
    /// Checks, in this order, the OID's form, the OID for suspicious words,
    /// the order column against `valid_columns`, the limit and the offset;
    /// the first failing check gives the error.
    pub fn validate_query_params(
        oid: Option<&str>,
        order_column: Option<&str>,
        limit: Option<usize>,
        offset: Option<usize>,
        valid_columns: &[&str],
    ) -> (r: Result<(), ValidationError>)
        ensures
            ({
                let oid_form_ok = (oid matches Some(o) ==> oid_valid(o));
                let oid_clean = (oid matches Some(o) ==> free_of_keywords(upper_of(o@)));
                let column_ok = (order_column matches Some(c) ==> exists|i: int|
                    0 <= i < valid_columns@.len() && (#[trigger] valid_columns@[i])@ == c@);
                let limit_ok = (limit matches Some(l) ==> 1 <= l <= MAX_LIMIT);
                let offset_ok = (offset matches Some(o) ==> o <= MAX_OFFSET);
                &&& !oid_form_ok ==> (r matches Err(ValidationError::InvalidOid(_)))
                &&& oid_form_ok && !oid_clean ==> (r matches Err(
                    ValidationError::SqlInjectionDetected(_),
                ))
                &&& oid_form_ok && oid_clean && !column_ok ==> (r matches Err(
                    ValidationError::InvalidColumn(_),
                ))
                &&& oid_form_ok && oid_clean && column_ok && !limit_ok ==> (r matches Err(
                    ValidationError::InvalidLimit(_),
                ))
                &&& oid_form_ok && oid_clean && column_ok && limit_ok && !offset_ok ==> (r matches Err(
                    ValidationError::InvalidOffset(_),
                ))
                &&& oid_form_ok && oid_clean && column_ok && limit_ok && offset_ok ==> r is Ok
            }),
    {
        if let Some(o) = oid {
            if !InputSanitizer::validate_oid(o) {
                let s = String::from_str(o);
                return Err(ValidationError::InvalidOid(prefixed("Invalid OID format: ", &s)));
            }
            if !InputSanitizer::check_for_sql_keywords(o) {
                let s = String::from_str(o);
                return Err(
                    ValidationError::SqlInjectionDetected(
                        prefixed("Suspicious input detected in OID: ", &s),
                    ),
                );
            }
        }
        if let Some(c) = order_column {
            if !InputSanitizer::validate_order_column(c, valid_columns) {
                let s = String::from_str(c);
                return Err(ValidationError::InvalidColumn(prefixed("Invalid order column: ", &s)));
            }
        }
        if let Some(l) = limit {
            if let Err(e) = InputSanitizer::validate_limit(l) {
                return Err(e);
            }
        }
        if let Some(o) = offset {
            if let Err(e) = InputSanitizer::validate_offset(o) {
                return Err(e);
            }
        }
        Ok(())
    }
}

} // verus!
