//! Predicate expressions for narrowing search results.
//!
//! A [`FilterExpression`] is an immutable, already-validated comparison of a
//! record field against a literal. It is built only through
//! [`FilterBuilder`], which fails if the field, the operator or the value is
//! missing, or if the value is not a well-formed literal of the query
//! grammar: a `'…'`-quoted text with no interior quote, or an optionally
//! signed run of at most eighteen digits.
//!
//! The same expression serves as a *pre-filter* — applied to restrict the
//! candidate set before similarity scoring, so it affects which rows can
//! reach the top of the ranking — or as a *post-filter*, applied to the
//! already-scored top results, which can return fewer rows than requested
//! even when more matches exist before scoring. Filter first, then truncate,
//! then filter again: the order matters and callers choose the side.

use crate::error::VectorStoreError;
use crate::store::FieldValue;
use vstd::prelude::*;
use vstd::string::StrSliceExecFns;
use vstd::string::StringExecFns;

verus! {

/// The comparison a filter performs.
#[derive(Debug, Clone, Copy, PartialEq, Eq, Structural)]
pub enum FilterOperator {
    /// `=`
    Equals,
    /// `!=`
    NotEquals,
    /// `<`
    LessThan,
    /// `<=`
    LessOrEqual,
    /// `>`
    GreaterThan,
    /// `>=`
    GreaterOrEqual,
}

/// A parsed literal a field is compared against.
#[derive(Debug, Clone, PartialEq, Eq)]
pub enum LiteralValue {
    /// A quoted text literal, stored without its quotes.
    Text(String),
    /// A signed integer literal.
    Integer(i64),
}

/// Whether `c` is a decimal digit.
pub open spec fn is_digit(c: char) -> bool {
    48 <= c as u32 <= 57
}

/// The numeric value of a digit.
pub open spec fn digit_val(c: char) -> int {
    c as u32 - 48
}

/// A non-empty run of decimal digits.
pub open spec fn all_digits(s: Seq<char>) -> bool {
    s.len() > 0 && (forall|i: int| 0 <= i < s.len() ==> is_digit(#[trigger] s[i]))
}

/// The value of a digit run, most significant first.
pub open spec fn digits_value(s: Seq<char>) -> int
    decreases s.len(),
{
    if s.len() == 0 {
        0
    } else {
        10 * digits_value(s.drop_last()) + digit_val(s.last())
    }
}

/// Ten to the `n`th.
pub open spec fn pow10(n: nat) -> int
    decreases n,
{
    if n == 0 {
        1
    } else {
        10 * pow10((n - 1) as nat)
    }
}

/// A `'…'`-quoted text with no interior quote.
pub open spec fn is_text_literal(s: Seq<char>) -> bool {
    &&& s.len() >= 2
    &&& s[0] == '\''
    &&& s[s.len() - 1] == '\''
    &&& forall|i: int| 1 <= i < s.len() - 1 ==> s[i] != '\''
}

/// An optionally signed run of at most eighteen digits.
pub open spec fn is_int_literal(s: Seq<char>) -> bool {
    if s.len() > 0 && s[0] == '-' {
        all_digits(s.skip(1)) && s.len() <= 19
    } else {
        all_digits(s) && s.len() <= 18
    }
}

/// The value of an integer literal.
pub open spec fn int_literal_value(s: Seq<char>) -> int {
    if s.len() > 0 && s[0] == '-' {
        -digits_value(s.skip(1))
    } else {
        digits_value(s)
    }
}

/// A well-formed literal of the query grammar.
pub open spec fn valid_literal(s: Seq<char>) -> bool {
    is_text_literal(s) || is_int_literal(s)
}

/// The operator a symbol denotes, if any.
pub open spec fn operator_of(s: Seq<char>) -> Option<FilterOperator> {
    if s.len() == 1 {
        if s[0] == '=' {
            Some(FilterOperator::Equals)
        } else if s[0] == '<' {
            Some(FilterOperator::LessThan)
        } else if s[0] == '>' {
            Some(FilterOperator::GreaterThan)
        } else {
            None
        }
    } else if s.len() == 2 && s[1] == '=' {
        if s[0] == '!' {
            Some(FilterOperator::NotEquals)
        } else if s[0] == '<' {
            Some(FilterOperator::LessOrEqual)
        } else if s[0] == '>' {
            Some(FilterOperator::GreaterOrEqual)
        } else {
            None
        }
    } else {
        None
    }
}

/// The symbol of an operator.
pub open spec fn operator_text(op: FilterOperator) -> Seq<char> {
    match op {
        FilterOperator::Equals => "="@,
        FilterOperator::NotEquals => "!="@,
        FilterOperator::LessThan => "<"@,
        FilterOperator::LessOrEqual => "<="@,
        FilterOperator::GreaterThan => ">"@,
        FilterOperator::GreaterOrEqual => ">="@,
    }
}

/// Parses an operator symbol.
fn parse_operator(s: &str) -> (r: Option<FilterOperator>)
    ensures
        r == operator_of(s@),
{
    let n = s.unicode_len();
    if n == 1 {
        let c = s.get_char(0);
        if c == '=' {
            Some(FilterOperator::Equals)
        } else if c == '<' {
            Some(FilterOperator::LessThan)
        } else if c == '>' {
            Some(FilterOperator::GreaterThan)
        } else {
            None
        }
    } else if n == 2 {
        let c0 = s.get_char(0);
        let c1 = s.get_char(1);
        if c1 != '=' {
            None
        } else if c0 == '!' {
            Some(FilterOperator::NotEquals)
        } else if c0 == '<' {
            Some(FilterOperator::LessOrEqual)
        } else if c0 == '>' {
            Some(FilterOperator::GreaterOrEqual)
        } else {
            None
        }
    } else {
        None
    }
}

/// Parses a digit run into its value.
fn parse_digits(s: &str, from: usize, to: usize) -> (r: i64)
    requires
        from <= to <= s@.len(),
        to - from <= 18,
        forall|i: int| from <= i < to ==> is_digit(#[trigger] s@[i]),
    ensures
        r == digits_value(s@.subrange(from as int, to as int)),
        r >= 0,
{
    let mut acc: i64 = 0;
    let mut i: usize = from;
    proof {
        assert(s@.subrange(from as int, from as int) =~= Seq::<char>::empty());
    }
    while i < to
        invariant
            from <= i <= to <= s@.len(),
            to - from <= 18,
            forall|k: int| from <= k < to ==> is_digit(#[trigger] s@[k]),
            acc == digits_value(s@.subrange(from as int, i as int)),
            0 <= acc < pow10((i - from) as nat),
        decreases to - i,
    {
        let c = s.get_char(i);
        let d: i64 = (c as u32 - 48) as i64;
        proof {
            lemma_pow10_mono((i - from) as nat, 17);
            assert(pow10(18) == 1_000_000_000_000_000_000) by {
                reveal_with_fuel(pow10, 19);
            }
            assert(pow10((i + 1 - from) as nat) == 10 * pow10((i - from) as nat));
            assert(s@.subrange(from as int, i + 1).drop_last() =~= s@.subrange(
                from as int,
                i as int,
            ));
        }
        acc = 10 * acc + d;
        i = i + 1;
    }
    proof {
        assert(s@.subrange(from as int, to as int) =~= s@.subrange(from as int, i as int));
    }
    acc
}

/// `pow10` grows with its argument.
proof fn lemma_pow10_mono(a: nat, b: nat)
    requires
        a <= b,
    ensures
        0 < pow10(a) <= pow10(b),
    decreases b,
{
    if a < b {
        lemma_pow10_mono(a, (b - 1) as nat);
    } else if a > 0 {
        lemma_pow10_mono((a - 1) as nat, (b - 1) as nat);
    }
}

/// Parses a literal of the query grammar: a quoted text yields
/// [`LiteralValue::Text`] without its quotes, a signed digit run yields
/// [`LiteralValue::Integer`], and anything else is rejected.
pub fn parse_literal(s: &str) -> (r: Option<LiteralValue>)
    ensures
        r is Some <==> valid_literal(s@),
        is_text_literal(s@) ==> (r matches Some(LiteralValue::Text(t)) && t@ == s@.subrange(
            1,
            s@.len() - 1,
        )),
        !is_text_literal(s@) && is_int_literal(s@) ==> (r matches Some(LiteralValue::Integer(v))
            && v == int_literal_value(s@)),
{
    let n = s.unicode_len();
    if n >= 2 && s.get_char(0) == '\'' && s.get_char(n - 1) == '\'' {
        // candidate text literal: scan the interior for a stray quote
        let mut i: usize = 1;
        while i < n - 1
            invariant
                1 <= i <= n - 1,
                n == s@.len(),
                n >= 2,
                s@[0] == '\'',
                s@[n - 1] == '\'',
                forall|k: int| 1 <= k < i ==> s@[k] != '\'',
            decreases n - 1 - i,
        {
            if s.get_char(i) == '\'' {
                proof {
                    assert(!is_digit(s@[0]));
                    assert(s@[0] != '-');
                }
                return None;
            }
            i = i + 1;
        }
        let inner = s.substring_char(1, n - 1);
        return Some(LiteralValue::Text(inner.to_owned()));
    }
    // candidate integer literal
    let negative = n > 0 && s.get_char(0) == '-';
    let start: usize = if negative {
        1
    } else {
        0
    };
    if n == start || n - start > 18 {
        return None;
    }
    let mut i: usize = start;
    while i < n
        invariant
            start <= i <= n,
            n == s@.len(),
            !is_text_literal(s@),
            negative ==> start == 1 && n > 0 && s@[0] == '-',
            !negative ==> start == 0 && (n > 0 ==> s@[0] != '-'),
            forall|k: int| start <= k < i ==> is_digit(#[trigger] s@[k]),
        decreases n - i,
    {
        let c = s.get_char(i);
        let cv = c as u32;
        if cv < 48 || cv > 57 {
            proof {
                assert(!is_digit(s@[i as int]));
                if negative {
                    assert(s@.skip(1)[i - 1] == s@[i as int]);
                }
            }
            return None;
        }
        i = i + 1;
    }
    let magnitude = parse_digits(s, start, n);
    proof {
        if negative {
            assert(s@.subrange(1, n as int) =~= s@.skip(1));
        } else {
            assert(s@.subrange(0, n as int) =~= s@);
        }
    }
    if negative {
        Some(LiteralValue::Integer(-magnitude))
    } else {
        Some(LiteralValue::Integer(magnitude))
    }
}

/// An immutable, validated predicate: a record field compared against a
/// literal.
#[derive(Debug, Clone)]
pub struct FilterExpression {
    field: String,
    operator: FilterOperator,
    raw: String,
    value: LiteralValue,
}

impl FilterExpression {
    /// Well-formedness: the stored literal is the parse of the stored text —
    /// a text literal carries its unquoted interior, an integer literal its
    /// value.
    pub open spec fn wf(&self) -> bool {
        &&& valid_literal(self.spec_raw())
        &&& if is_text_literal(self.spec_raw()) {
            self.spec_value() matches LiteralValue::Text(t) && t@ == self.spec_raw().subrange(
                1,
                self.spec_raw().len() - 1,
            )
        } else {
            self.spec_value() matches LiteralValue::Integer(v) && v == int_literal_value(
                self.spec_raw(),
            )
        }
    }

    /// The field the predicate reads.
    pub closed spec fn spec_field(&self) -> Seq<char> {
        self.field@
    }

    /// The comparison performed.
    pub closed spec fn spec_operator(&self) -> FilterOperator {
        self.operator
    }

    /// The literal compared against.
    pub closed spec fn spec_value(&self) -> LiteralValue {
        self.value
    }

    /// The literal as written.
    pub closed spec fn spec_raw(&self) -> Seq<char> {
        self.raw@
    }

    /// Renders the predicate as a clause of the query grammar, for pushdown
    /// to a store that evaluates predicates server-side.
    pub fn to_clause(&self) -> (r: String)
        ensures
            r@ == self.spec_field() + " "@ + operator_text(self.spec_operator()) + " "@
                + self.spec_raw(),
    {
        let mut out = self.field.clone();
        out.append(" ");
        out.append(operator_symbol(self.operator));
        out.append(" ");
        out.append(self.raw.as_str());
        out
    }

    /// Whether the predicate holds of a record with the given fields.
    ///
    /// A record matches iff it has the field (first occurrence decides) and
    /// the field's value compares against the literal under the operator.
    /// A missing field, or a field whose type differs from the literal's,
    /// never matches; ordering comparisons apply to integers only.
    pub open spec fn spec_matches(&self, fields: Seq<(String, FieldValue)>) -> bool {
        match lookup_field(fields, self.spec_field()) {
            Option::None => false,
            Option::Some(fv) => compare_field(self.spec_operator(), fv, self.spec_value()),
        }
    }

    /// Evaluates the predicate against a record's fields.
    pub fn matches(&self, fields: &Vec<(String, FieldValue)>) -> (r: bool)
        ensures
            r == self.spec_matches(fields@),
    {
        let n = fields.len();
        let mut i: usize = 0;
        while i < n
            invariant
                i <= n == fields@.len(),
                forall|k: int| 0 <= k < i ==> (#[trigger] fields@[k]).0@ != self.spec_field(),
            decreases n - i,
        {
            if fields[i].0 == self.field {
                proof {
                    lemma_lookup_found(fields@, self.spec_field(), i as int);
                }
                return compare_value(self.operator, &fields[i].1, &self.value);
            }
            i = i + 1;
        }
        proof {
            lemma_lookup_missing(fields@, self.spec_field());
        }
        false
    }
}

/// The value of the first field with the given name.
pub open spec fn lookup_field(fields: Seq<(String, FieldValue)>, name: Seq<char>) -> Option<
    FieldValue,
>
    decreases fields.len(),
{
    if fields.len() == 0 {
        None
    } else if fields[0].0@ == name {
        Some(fields[0].1)
    } else {
        lookup_field(fields.drop_first(), name)
    }
}

/// When the first `i` fields have other names and field `i` has `name`,
/// the lookup returns field `i`'s value.
proof fn lemma_lookup_found(fields: Seq<(String, FieldValue)>, name: Seq<char>, i: int)
    requires
        0 <= i < fields.len(),
        fields[i].0@ == name,
        forall|k: int| 0 <= k < i ==> (#[trigger] fields[k]).0@ != name,
    ensures
        lookup_field(fields, name) == Some(fields[i].1),
    decreases i,
{
    if i > 0 {
        lemma_lookup_found(fields.drop_first(), name, i - 1);
    }
}

/// When no field has the given name, the lookup finds nothing.
proof fn lemma_lookup_missing(fields: Seq<(String, FieldValue)>, name: Seq<char>)
    requires
        forall|k: int| 0 <= k < fields.len() ==> (#[trigger] fields[k]).0@ != name,
    ensures
        lookup_field(fields, name) is None,
    decreases fields.len(),
{
    if fields.len() > 0 {
        lemma_lookup_missing(fields.drop_first(), name);
    }
}

/// How a field value compares against a literal: text admits equality
/// comparisons only, integers admit the full order, and a type mismatch
/// never matches.
pub open spec fn compare_field(op: FilterOperator, fv: FieldValue, lit: LiteralValue) -> bool {
    match (fv, lit) {
        (FieldValue::Text(a), LiteralValue::Text(b)) => match op {
            FilterOperator::Equals => a@ == b@,
            FilterOperator::NotEquals => a@ != b@,
            _ => false,
        },
        (FieldValue::Integer(x), LiteralValue::Integer(y)) => match op {
            FilterOperator::Equals => x == y,
            FilterOperator::NotEquals => x != y,
            FilterOperator::LessThan => x < y,
            FilterOperator::LessOrEqual => x <= y,
            FilterOperator::GreaterThan => x > y,
            FilterOperator::GreaterOrEqual => x >= y,
        },
        _ => false,
    }
}

/// Compares a field value against a literal under an operator.
fn compare_value(op: FilterOperator, fv: &FieldValue, lit: &LiteralValue) -> (r: bool)
    ensures
        r == compare_field(op, *fv, *lit),
{
    match (fv, lit) {
        (FieldValue::Text(a), LiteralValue::Text(b)) => match op {
            FilterOperator::Equals => a.eq(b),
            FilterOperator::NotEquals => !a.eq(b),
            _ => false,
        },
        (FieldValue::Integer(x), LiteralValue::Integer(y)) => match op {
            FilterOperator::Equals => *x == *y,
            FilterOperator::NotEquals => *x != *y,
            FilterOperator::LessThan => *x < *y,
            FilterOperator::LessOrEqual => *x <= *y,
            FilterOperator::GreaterThan => *x > *y,
            FilterOperator::GreaterOrEqual => *x >= *y,
        },
        _ => false,
    }
}

/// The symbol of an operator.
fn operator_symbol(op: FilterOperator) -> (r: &'static str)
    ensures
        r@ == operator_text(op),
{
    match op {
        FilterOperator::Equals => "=",
        FilterOperator::NotEquals => "!=",
        FilterOperator::LessThan => "<",
        FilterOperator::LessOrEqual => "<=",
        FilterOperator::GreaterThan => ">",
        FilterOperator::GreaterOrEqual => ">=",
    }
}

/// Accumulates the parts of a filter predicate.
#[derive(Debug, Clone)]
pub struct FilterBuilder {
    field: Option<String>,
    operator: Option<String>,
    value: Option<String>,
}

impl FilterBuilder {
    /// Whether the accumulated parts build a valid expression: all three
    /// are set, the operator symbol is recognized, and the value is a
    /// well-formed literal.
    pub open spec fn buildable(&self) -> bool {
        &&& self.spec_field() is Some
        &&& self.spec_operator() matches Some(o) && operator_of(o@) is Some
        &&& self.spec_value() matches Some(v) && valid_literal(v@)
    }

    /// The accumulated field name.
    pub closed spec fn spec_field(&self) -> Option<String> {
        self.field
    }

    /// The accumulated operator symbol.
    pub closed spec fn spec_operator(&self) -> Option<String> {
        self.operator
    }

    /// The accumulated literal text.
    pub closed spec fn spec_value(&self) -> Option<String> {
        self.value
    }

    /// An empty builder.
    pub fn new() -> (r: FilterBuilder)
        ensures
            r.spec_field() is None,
            r.spec_operator() is None,
            r.spec_value() is None,
    {
        FilterBuilder { field: None, operator: None, value: None }
    }

    /// Sets the field the predicate reads.
    pub fn field(self, field: &str) -> (r: FilterBuilder)
        ensures
            r.spec_field() matches Some(f) && f@ == field@,
            r.spec_operator() == self.spec_operator(),
            r.spec_value() == self.spec_value(),
    {
        FilterBuilder { field: Some(field.to_owned()), ..self }
    }

    /// Sets the comparison operator by its symbol.
    pub fn operator(self, operator: &str) -> (r: FilterBuilder)
        ensures
            r.spec_operator() matches Some(o) && o@ == operator@,
            r.spec_field() == self.spec_field(),
            r.spec_value() == self.spec_value(),
    {
        FilterBuilder { operator: Some(operator.to_owned()), ..self }
    }

    /// Sets the literal text the field is compared against.
    pub fn value(self, value: &str) -> (r: FilterBuilder)
        ensures
            r.spec_value() matches Some(v) && v@ == value@,
            r.spec_field() == self.spec_field(),
            r.spec_operator() == self.spec_operator(),
    {
        FilterBuilder { value: Some(value.to_owned()), ..self }
    }

    /// Builds the immutable expression.
    ///
    /// Fails if the field, the operator or the value is unset, if the
    /// operator symbol is not recognized, or if the value is not a
    /// well-formed literal.
    pub fn build(&self) -> (r: Result<FilterExpression, VectorStoreError>)
        ensures
            r is Ok <==> self.buildable(),
            r matches Ok(e) ==> {
                &&& e.wf()
                &&& self.spec_field() matches Some(f) && e.spec_field() == f@
                &&& self.spec_operator() matches Some(o) && Some(e.spec_operator()) == operator_of(
                    o@,
                )
                &&& self.spec_value() matches Some(v) && e.spec_raw() == v@
            },
            r matches Ok(e) ==> (is_text_literal(e.spec_raw()) ==> (e.spec_value() matches
                LiteralValue::Text(t) && t@ == e.spec_raw().subrange(1, e.spec_raw().len() - 1))),
            r matches Ok(e) ==> (!is_text_literal(e.spec_raw()) ==> (e.spec_value() matches
                LiteralValue::Integer(x) && x == int_literal_value(e.spec_raw()))),
            r is Err ==> (r matches Err(VectorStoreError::InvalidDataError(_))),
    {
        let field = match &self.field {
            Some(f) => f.clone(),
            None => {
                return Err(
                    VectorStoreError::InvalidDataError("Filter field is not set".to_owned()),
                );
            },
        };
        let operator = match &self.operator {
            Some(o) => match parse_operator(o.as_str()) {
                Some(op) => op,
                None => {
                    return Err(
                        VectorStoreError::InvalidDataError(
                            "Filter operator is not recognized".to_owned(),
                        ),
                    );
                },
            },
            None => {
                return Err(
                    VectorStoreError::InvalidDataError("Filter operator is not set".to_owned()),
                );
            },
        };
        let raw = match &self.value {
            Some(v) => v.clone(),
            None => {
                return Err(
                    VectorStoreError::InvalidDataError("Filter value is not set".to_owned()),
                );
            },
        };
        let value = match parse_literal(raw.as_str()) {
            Some(v) => v,
            None => {
                return Err(
                    VectorStoreError::InvalidDataError(
                        "Filter value is not a valid literal".to_owned(),
                    ),
                );
            },
        };
        Ok(FilterExpression { field, operator, raw, value })
    }
}

} // verus!
