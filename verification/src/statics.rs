use vstd::prelude::*;
use vstd::string::StrSliceExecFns;

verus! {

// ---------------------------------------------------------------------------
// Strings and lists of strings
// ---------------------------------------------------------------------------

/// The abstract value of a list of strings.
pub open spec fn strings_view(v: Seq<String>) -> Seq<Seq<char>> {
    v.map_values(|s: String| s@)
}

/// Copies a list of strings.
pub fn clone_strings(v: &Vec<String>) -> (r: Vec<String>)
    ensures
        strings_view(r@) == strings_view(v@),
{
    let mut r: Vec<String> = Vec::new();
    let n = v.len();
    for i in 0..n
        invariant
            n == v@.len(),
            r@.len() == i,
            forall|j: int| 0 <= j < i ==> #[trigger] r@[j]@ == v@[j]@,
    {
        r.push(v[i].clone());
    }
    assert(strings_view(r@) =~= strings_view(v@));
    r
}

// ---------------------------------------------------------------------------
// Statics
// ---------------------------------------------------------------------------

/// The static parts of a fragment: a single string, the list of strings
/// between the dynamic parts, or a reference to a shared template.
#[derive(Debug, Clone, PartialEq)]
pub enum Statics {
    String(String),
    Statics(Vec<String>),
    TemplateRef(i32),
}

/// Abstract value of [`Statics`].
pub enum StaticsView {
    String(Seq<char>),
    Statics(Seq<Seq<char>>),
    TemplateRef(i32),
}

impl View for Statics {
    type V = StaticsView;

    open spec fn view(&self) -> StaticsView {
        match self {
            Statics::String(s) => StaticsView::String(s@),
            Statics::Statics(v) => StaticsView::Statics(strings_view(v@)),
            Statics::TemplateRef(id) => StaticsView::TemplateRef(*id),
        }
    }
}

/// Abstract value of an optional [`Statics`].
pub open spec fn opt_statics_view(s: Option<Statics>) -> Option<StaticsView> {
    match s {
        Some(st) => Some(st@),
        None => None,
    }
}

/// Either one string or a list of strings.
#[derive(Debug, Clone, PartialEq)]
pub enum OneOrManyStrings {
    One(String),
    Many(Vec<String>),
}

/// Abstract value of [`OneOrManyStrings`].
pub enum OneOrManyView {
    One(Seq<char>),
    Many(Seq<Seq<char>>),
}

impl View for OneOrManyStrings {
    type V = OneOrManyView;

    open spec fn view(&self) -> OneOrManyView {
        match self {
            OneOrManyStrings::One(s) => OneOrManyView::One(s@),
            OneOrManyStrings::Many(v) => OneOrManyView::Many(strings_view(v@)),
        }
    }
}

impl From<String> for OneOrManyStrings {
    /// A single string is the `One` case.
    fn from(value: String) -> (r: Self) {
        OneOrManyStrings::One(value)
    }
}

impl vstd::std_specs::convert::FromSpecImpl<String> for OneOrManyStrings {
    open spec fn obeys_from_spec() -> bool {
        true
    }

    open spec fn from_spec(v: String) -> Self {
        OneOrManyStrings::One(v)
    }
}

/// The statics of a component: its own list of strings, or a reference to
/// the statics of another component.
#[derive(Debug, Clone, PartialEq)]
pub enum ComponentStatics {
    Statics(Vec<String>),
    ComponentRef(i32),
}

/// Abstract value of [`ComponentStatics`].
pub enum ComponentStaticsView {
    Statics(Seq<Seq<char>>),
    ComponentRef(i32),
}

impl View for ComponentStatics {
    type V = ComponentStaticsView;

    open spec fn view(&self) -> ComponentStaticsView {
        match self {
            ComponentStatics::Statics(v) => ComponentStaticsView::Statics(strings_view(v@)),
            ComponentStatics::ComponentRef(id) => ComponentStaticsView::ComponentRef(*id),
        }
    }
}

// ---------------------------------------------------------------------------
// Decimal rendering of template ids
// ---------------------------------------------------------------------------

/// The character of a decimal digit.
pub open spec fn digit_char(d: int) -> char {
    if d == 0 {
        '0'
    } else if d == 1 {
        '1'
    } else if d == 2 {
        '2'
    } else if d == 3 {
        '3'
    } else if d == 4 {
        '4'
    } else if d == 5 {
        '5'
    } else if d == 6 {
        '6'
    } else if d == 7 {
        '7'
    } else if d == 8 {
        '8'
    } else {
        '9'
    }
}

/// The decimal digits of a natural number, most significant first, without
/// leading zeros.
pub open spec fn decimal_digits(n: nat) -> Seq<char>
    decreases n,
{
    if n < 10 {
        seq![digit_char(n as int)]
    } else {
        decimal_digits(n / 10).push(digit_char((n % 10) as int))
    }
}

/// The decimal rendering of an integer, as `to_string` writes it: a minus
/// sign for negative numbers, then the digits of the magnitude.
pub open spec fn decimal(n: int) -> Seq<char> {
    if n < 0 {
        seq!['-'] + decimal_digits((-n) as nat)
    } else {
        decimal_digits(n as nat)
    }
}

fn digit_char_exec(d: u64) -> (c: char)
    requires
        d < 10,
    ensures
        c == digit_char(d as int),
{
    if d == 0 {
        '0'
    } else if d == 1 {
        '1'
    } else if d == 2 {
        '2'
    } else if d == 3 {
        '3'
    } else if d == 4 {
        '4'
    } else if d == 5 {
        '5'
    } else if d == 6 {
        '6'
    } else if d == 7 {
        '7'
    } else if d == 8 {
        '8'
    } else {
        '9'
    }
}

/// The characters of the decimal rendering of `n`.
pub fn decimal_chars(n: i32) -> (r: Vec<char>)
    ensures
        r@ == decimal(n as int),
{
    let wide: i64 = n as i64;
    let m0: u64 = if wide < 0 {
        (-wide) as u64
    } else {
        wide as u64
    };
    let mut m: u64 = m0;
    let mut digits: Vec<char> = Vec::new();
    while m >= 10
        invariant
            decimal_digits(m0 as nat) == decimal_digits(m as nat) + digits@,
        decreases m,
    {
        let d = digit_char_exec(m % 10);
        let ghost before = digits@;
        digits.insert(0, d);
        assert(decimal_digits(m as nat) == decimal_digits((m / 10) as nat).push(
            digit_char((m % 10) as int),
        ));
        assert(decimal_digits((m / 10) as nat) + digits@ =~= decimal_digits((m / 10) as nat).push(
            d,
        ) + before);
        m = m / 10;
    }
    let d = digit_char_exec(m);
    digits.insert(0, d);
    assert(decimal_digits(m0 as nat) =~= digits@);
    if wide < 0 {
        digits.insert(0, '-');
    }
    assert(digits@ =~= decimal(n as int));
    digits
}

/// Whether a string consists of exactly the given characters.
pub fn string_is(key: &String, expected: &Vec<char>) -> (r: bool)
    ensures
        r == (key@ == expected@),
{
    let s = key.as_str();
    let n = s.unicode_len();
    if n != expected.len() {
        return false;
    }
    for i in 0..n
        invariant
            n == s@.len(),
            n == expected@.len(),
            s@ == key@,
            forall|j: int| 0 <= j < i ==> s@[j] == expected@[j],
    {
        if s.get_char(i) != expected[i] {
            return false;
        }
    }
    assert(key@ =~= expected@);
    true
}

// ---------------------------------------------------------------------------
// Templates
// ---------------------------------------------------------------------------

/// Shared templates: lists of statics, each under the decimal rendering of
/// its id.
pub type Templates = Option<Vec<(String, Vec<String>)>>;

/// Abstract value of a template table.
pub type TemplateTableView = Seq<(Seq<char>, Seq<Seq<char>>)>;

/// Abstract value of [`Templates`].
pub type TemplatesView = Option<TemplateTableView>;

/// Abstract value of a template table.
pub open spec fn template_table_view(t: Seq<(String, Vec<String>)>) -> TemplateTableView {
    t.map_values(|e: (String, Vec<String>)| (e.0@, strings_view(e.1@)))
}

/// Abstract value of optional templates.
pub open spec fn templates_view(t: Templates) -> TemplatesView {
    match t {
        Some(v) => Some(template_table_view(v@)),
        None => None,
    }
}

/// The value of the first entry under `key`, if any.
pub open spec fn lookup_entry<V>(entries: Seq<(Seq<char>, V)>, key: Seq<char>) -> Option<V>
    decreases entries.len(),
{
    if entries.len() == 0 {
        None
    } else if entries[0].0 == key {
        Some(entries[0].1)
    } else {
        lookup_entry(entries.drop_first(), key)
    }
}

/// The template with the given id in a template table.
pub open spec fn template_for(t: TemplateTableView, id: i32) -> Option<Seq<Seq<char>>> {
    lookup_entry(t, decimal(id as int))
}

/// Finds the template with the given id.
pub fn lookup_template(templates: &Vec<(String, Vec<String>)>, id: i32) -> (r: Option<
    &Vec<String>,
>)
    ensures
        r is None <==> template_for(template_table_view(templates@), id) is None,
        r matches Some(v) ==> template_for(template_table_view(templates@), id) == Some(
            strings_view(v@),
        ),
{
    let key = decimal_chars(id);
    let ghost tv = template_table_view(templates@);
    let n = templates.len();
    assert(tv.subrange(0, n as int) =~= tv);
    for i in 0..n
        invariant
            n == templates@.len(),
            tv == template_table_view(templates@),
            key@ == decimal(id as int),
            lookup_entry(tv, key@) == lookup_entry(tv.subrange(i as int, n as int), key@),
    {
        let ghost rest = tv.subrange(i as int, n as int);
        assert(rest[0] == tv[i as int]);
        if string_is(&templates[i].0, &key) {
            return Some(&templates[i].1);
        }
        assert(rest.drop_first() =~= tv.subrange(i + 1, n as int));
    }
    None
}

} // verus!
