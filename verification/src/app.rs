use vstd::prelude::*;
use crate::models::StrategyType;
use crate::text::{chars_of, parse_usize_spec, parse_usize, decimal, usize_to_string};

verus! {

// ─────────────────────────────── filter / sort ───────────────────────────────

/// Which trades the journal lists.
#[derive(Debug, Clone, Copy, PartialEq, Eq, Structural)]
pub enum FilterStatus {
    All,
    Open,
    Closed,
    Expired,
}

impl FilterStatus {
    /// The next filter in the cycle All → Open → Closed → Expired → All.
    pub fn next(self) -> (r: Self)
        ensures
            r == match self {
                FilterStatus::All => FilterStatus::Open,
                FilterStatus::Open => FilterStatus::Closed,
                FilterStatus::Closed => FilterStatus::Expired,
                FilterStatus::Expired => FilterStatus::All,
            },
    {
        match self {
            FilterStatus::All => FilterStatus::Open,
            FilterStatus::Open => FilterStatus::Closed,
            FilterStatus::Closed => FilterStatus::Expired,
            FilterStatus::Expired => FilterStatus::All,
        }
    }

    /// Label shown in the journal header.
    pub fn label(self) -> (r: &'static str)
        ensures
            r@ == match self {
                FilterStatus::All => "All"@,
                FilterStatus::Open => "Open"@,
                FilterStatus::Closed => "Closed"@,
                FilterStatus::Expired => "Expired"@,
            },
    {
        match self {
            FilterStatus::All => "All",
            FilterStatus::Open => "Open",
            FilterStatus::Closed => "Closed",
            FilterStatus::Expired => "Expired",
        }
    }
}

/// The column the journal is sorted by.
#[derive(Debug, Clone, Copy, PartialEq, Eq, Structural)]
pub enum SortKey {
    Date,
    Ticker,
    Pnl,
    Roc,
    Dte,
    Credit,
    PctMax,
}

impl SortKey {
    /// The next sort key in the cycle Date → Ticker → P&L → ROC → DTE → Credit → %Max → Date.
    pub fn next(self) -> (r: Self)
        ensures
            r == match self {
                SortKey::Date => SortKey::Ticker,
                SortKey::Ticker => SortKey::Pnl,
                SortKey::Pnl => SortKey::Roc,
                SortKey::Roc => SortKey::Dte,
                SortKey::Dte => SortKey::Credit,
                SortKey::Credit => SortKey::PctMax,
                SortKey::PctMax => SortKey::Date,
            },
    {
        match self {
            SortKey::Date => SortKey::Ticker,
            SortKey::Ticker => SortKey::Pnl,
            SortKey::Pnl => SortKey::Roc,
            SortKey::Roc => SortKey::Dte,
            SortKey::Dte => SortKey::Credit,
            SortKey::Credit => SortKey::PctMax,
            SortKey::PctMax => SortKey::Date,
        }
    }

    /// Label shown in the journal header.
    pub fn label(self) -> (r: &'static str)
        ensures
            r@ == match self {
                SortKey::Date => "Date"@,
                SortKey::Ticker => "Ticker"@,
                SortKey::Pnl => "P&L"@,
                SortKey::Roc => "ROC%"@,
                SortKey::Dte => "DTE"@,
                SortKey::Credit => "Credit"@,
                SortKey::PctMax => "%Max"@,
            },
    {
        match self {
            SortKey::Date => "Date",
            SortKey::Ticker => "Ticker",
            SortKey::Pnl => "P&L",
            SortKey::Roc => "ROC%",
            SortKey::Dte => "DTE",
            SortKey::Credit => "Credit",
            SortKey::PctMax => "%Max",
        }
    }
}


// ─────────────────────────────── modes ───────────────────────────────

/// What the terminal interface is doing.
#[derive(Debug, Clone, Copy, PartialEq, Eq, Structural)]
pub enum AppMode {
    Normal,
    FilterInput,
    EditTrade,
    CloseTrade,
    ConfirmDelete,
    EditPlaybook,
    EditThesis,
    AdminSettings,
    AnalyzeTrade,
    DatePicker,
}

// ─────────────────────────────── edit forms ───────────────────────────────

/// The kind of input a form field takes.
#[derive(Debug, Clone, PartialEq, Eq)]
pub enum FieldKind {
    Text,
    Number,
    Bool,
    /// A choice among options; the field's value is the chosen index.
    Select(Vec<String>),
    /// A button with its caption; activated with Enter.
    Button(String),
    Multiline,
    /// A `YYYY-MM-DD` date.
    Date,
}

/// One labelled field of an edit form; the value is kept as text.
#[derive(Debug, Clone)]
pub struct EditField {
    pub label: String,
    pub value: String,
    pub kind: FieldKind,
    /// When set, a header line is drawn before the field.
    pub section_header: Option<String>,
}

impl EditField {
    /// A free-text field.
    pub fn text(label: &str, value: &str) -> (r: Self)
        ensures
            r.label@ == label@,
            r.value@ == value@,
            r.kind == FieldKind::Text,
            r.section_header is None,
    {
        EditField { label: label.to_string(), value: value.to_string(), kind: FieldKind::Text, section_header: None }
    }

    /// A numeric field.
    pub fn number(label: &str, value: &str) -> (r: Self)
        ensures
            r.label@ == label@,
            r.value@ == value@,
            r.kind == FieldKind::Number,
            r.section_header is None,
    {
        EditField { label: label.to_string(), value: value.to_string(), kind: FieldKind::Number, section_header: None }
    }

    /// A yes/no field holding `true` or `false`.
    pub fn bool_field(label: &str, value: bool) -> (r: Self)
        ensures
            r.label@ == label@,
            r.value@ == (if value { "true"@ } else { "false"@ }),
            r.kind == FieldKind::Bool,
            r.section_header is None,
    {
        EditField {
            label: label.to_string(),
            value: if value { "true" } else { "false" }.to_string(),
            kind: FieldKind::Bool,
            section_header: None,
        }
    }

    /// A choice among `options`; `value` is the chosen index as text.
    pub fn select(label: &str, value: &str, options: Vec<String>) -> (r: Self)
        ensures
            r.label@ == label@,
            r.value@ == value@,
            r.kind == FieldKind::Select(options),
            r.section_header is None,
    {
        EditField { label: label.to_string(), value: value.to_string(), kind: FieldKind::Select(options), section_header: None }
    }

    /// A long text field shown word-wrapped.
    pub fn multiline(label: &str, value: &str) -> (r: Self)
        ensures
            r.label@ == label@,
            r.value@ == value@,
            r.kind == FieldKind::Multiline,
            r.section_header is None,
    {
        EditField { label: label.to_string(), value: value.to_string(), kind: FieldKind::Multiline, section_header: None }
    }

    /// A `YYYY-MM-DD` date field.
    pub fn date(label: &str, value: &str) -> (r: Self)
        ensures
            r.label@ == label@,
            r.value@ == value@,
            r.kind == FieldKind::Date,
            r.section_header is None,
    {
        EditField { label: label.to_string(), value: value.to_string(), kind: FieldKind::Date, section_header: None }
    }

    /// The same field with a section header drawn before it.
    pub fn with_section(self, header: &str) -> (r: Self)
        ensures
            r.label == self.label,
            r.value == self.value,
            r.kind == self.kind,
            r.section_header matches Some(h) && h@ == header@,
    {
        let mut f = self;
        f.section_header = Some(header.to_string());
        f
    }
}

// ─────────────────────────────── key handling in forms ───────────────────────────────

/// The option index a select field's text designates; unreadable text means 0.
pub open spec fn select_index(value: Seq<char>) -> nat {
    match parse_usize_spec(value) {
        Some(n) => n,
        None => 0,
    }
}

/// A select field's value after `c`: `+` or space moves to the next option,
/// `-` to the previous one, both wrapping around; other keys leave it.
pub open spec fn cycled_select(value: Seq<char>, n: nat, c: char) -> Seq<char> {
    let i = select_index(value);
    if c == '+' || c == ' ' {
        decimal(((i + 1) as int % (n as int)) as nat)
    } else if c == '-' {
        decimal(if i == 0 { (n - 1) as nat } else { (i - 1) as nat })
    } else {
        value
    }
}

/// Whether cycling a select with `n` options by key `c` is defined: the
/// move keys need at least one option and a readable index below the limit.
pub open spec fn cycle_defined(value: Seq<char>, n: nat, c: char) -> bool {
    (c == '+' || c == ' ' || c == '-') ==> (n > 0 && select_index(value) < usize::MAX)
}

fn read_select_index(value: &str) -> (r: usize)
    ensures
        r as nat == select_index(value@),
{
    match parse_usize(value) {
        Some(n) => n,
        None => 0,
    }
}

fn cycle_select(value: &String, n: usize, c: char) -> (r: String)
    requires
        cycle_defined(value@, n as nat, c),
    ensures
        r@ == cycled_select(value@, n as nat, c),
{
    let i = read_select_index(value.as_str());
    if c == '+' || c == ' ' {
        usize_to_string((i + 1) % n)
    } else if c == '-' {
        usize_to_string(if i == 0 { n - 1 } else { i - 1 })
    } else {
        value.clone()
    }
}

/// A trade-form field's value after key `c`: yes/no fields take `y`, `Y` or
/// space as yes and `n`/`N` as no, selects cycle, buttons ignore keys, and
/// every other field appends the character.
pub open spec fn edit_key_value(kind: FieldKind, value: Seq<char>, c: char) -> Seq<char> {
    match kind {
        FieldKind::Bool => {
            if c == ' ' || c == 'y' || c == 'Y' {
                "true"@
            } else if c == 'n' || c == 'N' {
                "false"@
            } else {
                value
            }
        },
        FieldKind::Select(opts) => cycled_select(value, opts@.len(), c),
        FieldKind::Button(_) => value,
        _ => value.push(c),
    }
}

/// Whether key `c` is defined on a field: select moves need a usable index.
pub open spec fn key_defined(kind: FieldKind, value: Seq<char>, c: char) -> bool {
    match kind {
        FieldKind::Select(opts) => cycle_defined(value, opts@.len(), c),
        _ => true,
    }
}

/// Applies a typed character to a trade-form field.
pub fn edit_key_char(field: &mut EditField, c: char)
    requires
        key_defined(old(field).kind, old(field).value@, c),
    ensures
        final(field).label == old(field).label,
        final(field).kind == old(field).kind,
        final(field).section_header == old(field).section_header,
        final(field).value@ == edit_key_value(old(field).kind, old(field).value@, c),
{
    let new_value: Option<String> = match &field.kind {
        FieldKind::Bool => {
            if c == ' ' || c == 'y' || c == 'Y' {
                Some("true".to_string())
            } else if c == 'n' || c == 'N' {
                Some("false".to_string())
            } else {
                None
            }
        },
        FieldKind::Select(opts) => Some(cycle_select(&field.value, opts.len(), c)),
        FieldKind::Button(_) => None,
        _ => {
            let mut v = field.value.clone();
            crate::text::push_char(&mut v, c);
            Some(v)
        },
    };
    if let Some(v) = new_value {
        field.value = v;
    }
}

/// A close-form field's value after key `c`: selects cycle, buttons ignore
/// keys, every other field appends the character.
pub open spec fn close_key_value(kind: FieldKind, value: Seq<char>, c: char) -> Seq<char> {
    match kind {
        FieldKind::Select(opts) => cycled_select(value, opts@.len(), c),
        FieldKind::Button(_) => value,
        _ => value.push(c),
    }
}

/// Applies a typed character to a close-form field.
pub fn close_key_char(field: &mut EditField, c: char)
    requires
        key_defined(old(field).kind, old(field).value@, c),
    ensures
        final(field).label == old(field).label,
        final(field).kind == old(field).kind,
        final(field).section_header == old(field).section_header,
        final(field).value@ == close_key_value(old(field).kind, old(field).value@, c),
{
    let new_value: Option<String> = match &field.kind {
        FieldKind::Select(opts) => Some(cycle_select(&field.value, opts.len(), c)),
        FieldKind::Button(_) => None,
        _ => {
            let mut v = field.value.clone();
            crate::text::push_char(&mut v, c);
            Some(v)
        },
    };
    if let Some(v) = new_value {
        field.value = v;
    }
}

/// A playbook-form field's value after key `c`: yes/no fields toggle on any
/// key, selects cycle on `+`, space and `-` and otherwise rewrite the index in
/// canonical form, buttons ignore keys, and text fields append the character.
pub open spec fn playbook_key_value(kind: FieldKind, value: Seq<char>, c: char) -> Seq<char> {
    match kind {
        FieldKind::Bool => if value == "true"@ { "false"@ } else { "true"@ },
        FieldKind::Select(opts) => {
            if c == '+' || c == ' ' || c == '-' {
                cycled_select(value, opts@.len(), c)
            } else {
                decimal(select_index(value))
            }
        },
        FieldKind::Button(_) => value,
        _ => value.push(c),
    }
}

/// Applies a typed character to a playbook-form field.
pub fn playbook_key_char(field: &mut EditField, c: char)
    requires
        key_defined(old(field).kind, old(field).value@, c),
    ensures
        final(field).label == old(field).label,
        final(field).kind == old(field).kind,
        final(field).section_header == old(field).section_header,
        final(field).value@ == playbook_key_value(old(field).kind, old(field).value@, c),
{
    let new_value: Option<String> = match &field.kind {
        FieldKind::Bool => {
            if crate::text::str_eq(field.value.as_str(), "true") {
                Some("false".to_string())
            } else {
                Some("true".to_string())
            }
        },
        FieldKind::Select(opts) => {
            if c == '+' || c == ' ' || c == '-' {
                Some(cycle_select(&field.value, opts.len(), c))
            } else {
                Some(usize_to_string(read_select_index(field.value.as_str())))
            }
        },
        FieldKind::Button(_) => None,
        _ => {
            let mut v = field.value.clone();
            crate::text::push_char(&mut v, c);
            Some(v)
        },
    };
    if let Some(v) = new_value {
        field.value = v;
    }
}

/// Backspace in the trade form: text and number fields lose their last
/// character; other fields are unchanged.
pub fn edit_key_backspace(field: &mut EditField)
    ensures
        final(field).label == old(field).label,
        final(field).kind == old(field).kind,
        final(field).section_header == old(field).section_header,
        final(field).value@ == (if (old(field).kind is Text || old(field).kind is Number) && old(field).value@.len() > 0 {
            old(field).value@.drop_last()
        } else {
            old(field).value@
        }),
{
    if matches!(field.kind, FieldKind::Text | FieldKind::Number) {
        crate::text::pop_char(&mut field.value);
    }
}

/// Stepping a select forward then back returns it to where it was, for any
/// option index in range written canonically.
pub proof fn lemma_select_cycle_round_trip(i: nat, n: nat)
    requires
        i < n,
        n <= usize::MAX,
    ensures
        cycled_select(cycled_select(decimal(i), n, '+'), n, '-') == decimal(i),
        cycled_select(cycled_select(decimal(i), n, '-'), n, '+') == decimal(i),
        select_index(cycled_select(decimal(i), n, '+')) < n,
        select_index(cycled_select(decimal(i), n, '-')) < n,
{
    crate::text::lemma_parse_decimal(i);
    let up = ((i + 1) as int % (n as int)) as nat;
    let down = if i == 0 { (n - 1) as nat } else { (i - 1) as nat };
    crate::text::lemma_parse_decimal(up);
    crate::text::lemma_parse_decimal(down);
    if i + 1 == n {
        vstd::arithmetic::div_mod::lemma_mod_self_0(n as int);
        assert(up == 0);
    } else {
        vstd::arithmetic::div_mod::lemma_small_mod((i + 1) as nat, n);
        assert(up == i + 1);
    }
    if i == 0 {
        vstd::arithmetic::div_mod::lemma_mod_self_0(n as int);
        assert(((down + 1) as int % (n as int)) == 0);
    } else {
        vstd::arithmetic::div_mod::lemma_small_mod(i, n);
        assert(((down + 1) as int % (n as int)) == i);
    }
}

// ─────────────────────────────── leg fields ───────────────────────────────

/// The characters of `s` before its first space.
pub open spec fn before_space(s: Seq<char>) -> Seq<char>
    decreases s.len(),
{
    if s.len() == 0 || s[0] == ' ' {
        Seq::empty()
    } else {
        seq![s[0]] + before_space(s.drop_first())
    }
}

/// The leg number `N` of a label of the form `Leg N ...` (1-based); `None`
/// for other labels.
pub open spec fn leg_number(label: Seq<char>) -> Option<nat> {
    if label.len() >= 4 && label.take(4) == "Leg "@ {
        parse_usize_spec(before_space(label.skip(4)))
    } else {
        None
    }
}

proof fn lemma_before_space_take(s: Seq<char>, k: int)
    requires
        0 <= k <= s.len(),
        forall|j: int| 0 <= j < k ==> s[j] != ' ',
        k == s.len() || s[k] == ' ',
    ensures
        before_space(s) == s.take(k),
    decreases s.len(),
{
    if s.len() == 0 || s[0] == ' ' {
        assert(s.take(k) =~= Seq::<char>::empty());
    } else {
        lemma_before_space_take(s.drop_first(), k - 1);
        assert(seq![s[0]] + s.drop_first().take(k - 1) =~= s.take(k));
    }
}

/// Reads `N` from a `Leg N ...` label.
pub fn extract_leg_number(label: &str) -> (r: Option<usize>)
    ensures
        r matches Some(n) ==> leg_number(label@) == Some(n as nat),
        r is None ==> leg_number(label@) is None,
{
    let cs = chars_of(label);
    if cs.len() < 4 || cs[0] != 'L' || cs[1] != 'e' || cs[2] != 'g' || cs[3] != ' ' {
        proof {
            reveal_strlit("Leg ");
            if cs@.len() >= 4 {
                assert(cs@.take(4) != "Leg "@) by {
                    if cs@[0] != 'L' { assert(cs@.take(4)[0] != "Leg "@[0]); }
                    else if cs@[1] != 'e' { assert(cs@.take(4)[1] != "Leg "@[1]); }
                    else if cs@[2] != 'g' { assert(cs@.take(4)[2] != "Leg "@[2]); }
                    else { assert(cs@.take(4)[3] != "Leg "@[3]); }
                }
            }
        }
        return None;
    }
    proof {
        reveal_strlit("Leg ");
        assert(cs@.take(4) =~= "Leg "@);
    }
    let mut end: usize = 4;
    while end < cs.len() && cs[end] != ' '
        invariant
            4 <= end <= cs@.len(),
            forall|j: int| 4 <= j < end ==> cs@[j] != ' ',
        decreases cs@.len() - end,
    {
        end = end + 1;
    }
    let head = crate::text::sub_chars(cs.as_slice(), 4, end);
    proof {
        let rest = cs@.skip(4);
        lemma_before_space_take(rest, end - 4);
        assert(head@ =~= rest.take(end - 4));
    }
    crate::text::parse_usize_chars(head.as_slice())
}

/// The largest leg number among the labels of `fields`, or 0 when none is a leg field.
pub open spec fn max_leg_number(fields: Seq<EditField>) -> nat
    decreases fields.len(),
{
    if fields.len() == 0 {
        0
    } else {
        let m = max_leg_number(fields.drop_last());
        match leg_number(fields.last().label@) {
            Some(n) => if n > m { n } else { m },
            None => m,
        }
    }
}

/// How many legs the form lists: the highest `Leg N` number present.
pub fn count_legs_in_fields(fields: &[EditField]) -> (r: usize)
    ensures
        r as nat == max_leg_number(fields@),
{
    let mut m: usize = 0;
    let mut i: usize = 0;
    while i < fields.len()
        invariant
            i <= fields@.len(),
            m as nat == max_leg_number(fields@.take(i as int)),
        decreases fields@.len() - i,
    {
        proof {
            let t = fields@.take(i + 1);
            assert(t.drop_last() =~= fields@.take(i as int));
            assert(t.last() == fields@[i as int]);
        }
        match extract_leg_number(fields[i].label.as_str()) {
            Some(n) => {
                if n > m {
                    m = n;
                }
            },
            None => {},
        }
        i = i + 1;
    }
    proof {
        assert(fields@.take(i as int) =~= fields@);
    }
    m
}

// ─────────────────────────────── reading forms ───────────────────────────────

/// Position of the first field labelled `label`, if any.
pub open spec fn first_field(fields: Seq<EditField>, label: Seq<char>) -> Option<int>
    decreases fields.len(),
{
    if fields.len() == 0 {
        None
    } else if fields[0].label@ == label {
        Some(0)
    } else {
        match first_field(fields.drop_first(), label) {
            Some(i) => Some(i + 1),
            None => None,
        }
    }
}

/// Position of the first field labelled `label`.
pub fn find_field(fields: &[EditField], label: &str) -> (r: Option<usize>)
    ensures
        match r {
            Some(i) => i < fields@.len() && first_field(fields@, label@) == Some(i as int),
            None => first_field(fields@, label@) is None,
        },
{
    let mut i: usize = 0;
    proof {
        assert(fields@.skip(0) =~= fields@);
    }
    while i < fields.len()
        invariant
            i <= fields@.len(),
            first_field(fields@, label@) == (match first_field(fields@.skip(i as int), label@) {
                Some(k) => Some(k + i),
                None => None::<int>,
            }),
        decreases fields@.len() - i,
    {
        proof {
            assert(fields@.skip(i as int)[0] == fields@[i as int]);
            assert(fields@.skip(i as int).drop_first() =~= fields@.skip(i + 1));
        }
        if crate::text::str_eq(fields[i].label.as_str(), label) {
            return Some(i);
        }
        i = i + 1;
    }
    None
}

/// The text of the first field labelled `label`; empty when there is none.
pub fn field_str(fields: &[EditField], label: &str) -> (r: String)
    ensures
        r@ == match first_field(fields@, label@) {
            Some(i) => fields@[i].value@,
            None => Seq::<char>::empty(),
        },
{
    match find_field(fields, label) {
        Some(i) => fields[i].value.clone(),
        None => String::new(),
    }
}

/// The text of the first field labelled `label`, when there is one and it
/// is not empty.
pub fn field_opt_str(fields: &[EditField], label: &str) -> (r: Option<String>)
    ensures
        match r {
            Some(v) => first_field(fields@, label@) matches Some(i) && fields@[i].value@.len() > 0 && v@ == fields@[i].value@,
            None => first_field(fields@, label@) matches Some(i) ==> fields@[i].value@.len() == 0,
        },
{
    match find_field(fields, label) {
        Some(i) => {
            if chars_of(fields[i].value.as_str()).len() == 0 {
                None
            } else {
                Some(fields[i].value.clone())
            }
        },
        None => None,
    }
}

/// The option chosen in the first field labelled `label`, when that field
/// is a select whose index names a non-empty option.
pub open spec fn select_value_spec(fields: Seq<EditField>, label: Seq<char>) -> Option<Seq<char>> {
    match first_field(fields, label) {
        Some(i) => match fields[i].kind {
            FieldKind::Select(opts) => {
                let k = select_index(fields[i].value@);
                if k < opts@.len() && opts@[k as int]@.len() > 0 { Some(opts@[k as int]@) } else { None }
            },
            _ => None,
        },
        None => None,
    }
}

/// Reads the option chosen in a select field.
pub fn field_select_value(fields: &[EditField], label: &str) -> (r: Option<String>)
    ensures
        match r {
            Some(v) => select_value_spec(fields@, label@) == Some(v@),
            None => select_value_spec(fields@, label@) is None,
        },
{
    match find_field(fields, label) {
        Some(i) => match &fields[i].kind {
            FieldKind::Select(opts) => {
                let k = read_select_index(fields[i].value.as_str());
                if k < opts.len() && chars_of(opts[k].as_str()).len() > 0 {
                    Some(opts[k].clone())
                } else {
                    None
                }
            },
            _ => None,
        },
        None => None,
    }
}

/// The header line above the legs of a form that lists `count` legs.
pub open spec fn legs_header(count: nat) -> Seq<char> {
    "── Legs ("@ + decimal(count) + " total) ─────────────────────────────────────────────"@
}

/// The header line above the legs of a form that lists `count` legs.
pub fn legs_header_text(count: usize) -> (r: String)
    ensures
        r@ == legs_header(count as nat),
{
    let mut s = "── Legs (".to_string();
    crate::text::push_decimal(&mut s, count);
    crate::text::push_str(&mut s, " total) ─────────────────────────────────────────────");
    s
}

/// Whether a field heads a leg (`Leg N ... Type`) or is the add-leg button;
/// the first such field carries the legs header.
pub open spec fn carries_legs_header(label: Seq<char>) -> bool {
    (leg_number(label) is Some && label.len() >= 4 && label.skip(label.len() - 4) == "Type"@)
        || label == "+ Add Leg"@
}

/// Whether `label` ends with `Type`.
fn ends_with_type(label: &str) -> (r: bool)
    ensures
        r == (label@.len() >= 4 && label@.skip(label@.len() - 4) == "Type"@),
{
    let cs = chars_of(label);
    let n = cs.len();
    proof {
        reveal_strlit("Type");
    }
    if n < 4 {
        return false;
    }
    let r = cs[n - 4] == 'T' && cs[n - 3] == 'y' && cs[n - 2] == 'p' && cs[n - 1] == 'e';
    proof {
        let t = cs@.skip(n - 4);
        if r {
            assert(t =~= "Type"@);
        } else {
            assert(t != "Type"@) by {
                if t == "Type"@ {
                    assert(t[0] == 'T' && t[1] == 'y' && t[2] == 'p' && t[3] == 'e');
                }
            }
        }
    }
    r
}

fn heads_legs(label: &str) -> (r: bool)
    ensures
        r == carries_legs_header(label@),
{
    (extract_leg_number(label).is_some() && ends_with_type(label)) || crate::text::str_eq(label, "+ Add Leg")
}

/// Whether some field before position `i` carries the legs header.
pub open spec fn header_taken(fields: Seq<EditField>, i: int) -> bool {
    exists|k: int| 0 <= k < i && carries_legs_header(#[trigger] fields[k].label@)
}

/// Puts the legs header, with the current leg count, on the first leg or
/// add-leg field and clears it from the later ones; other fields keep
/// theirs.
pub fn fix_legs_section(fields: &mut Vec<EditField>)
    ensures
        final(fields)@.len() == old(fields)@.len(),
        forall|i: int| 0 <= i < old(fields)@.len() ==> {
            let f = #[trigger] final(fields)@[i];
            let o = old(fields)@[i];
            &&& f.label == o.label
            &&& f.value == o.value
            &&& f.kind == o.kind
            &&& f.section_header == (if !carries_legs_header(o.label@) {
                o.section_header
            } else if header_taken(old(fields)@, i) {
                None
            } else {
                f.section_header
            })
            &&& (carries_legs_header(o.label@) && !header_taken(old(fields)@, i)) ==>
                (f.section_header matches Some(h) && h@ == legs_header(max_leg_number(old(fields)@)))
        },
{
    let count = count_legs_in_fields(fields.as_slice());
    let ghost orig = fields@;
    let mut first_found = false;
    let mut i: usize = 0;
    while i < fields.len()
        invariant
            i <= fields@.len(),
            fields@.len() == orig.len(),
            count as nat == max_leg_number(orig),
            first_found == header_taken(orig, i as int),
            forall|k: int| i <= k < orig.len() ==> #[trigger] fields@[k] == orig[k],
            forall|k: int| 0 <= k < i ==> {
                let f = #[trigger] fields@[k];
                let o = orig[k];
                &&& f.label == o.label
                &&& f.value == o.value
                &&& f.kind == o.kind
                &&& f.section_header == (if !carries_legs_header(o.label@) {
                    o.section_header
                } else if header_taken(orig, k) {
                    None
                } else {
                    f.section_header
                })
                &&& (carries_legs_header(o.label@) && !header_taken(orig, k)) ==>
                    (f.section_header matches Some(h) && h@ == legs_header(max_leg_number(orig)))
            },
        decreases fields@.len() - i,
    {
        let marks = heads_legs(fields[i].label.as_str());
        if marks {
            let mut f = fields.remove(i);
            if !first_found {
                f.section_header = Some(legs_header_text(count));
                first_found = true;
            } else {
                f.section_header = None;
            }
            fields.insert(i, f);
        }
        proof {
            assert(fields@[i as int].label == orig[i as int].label);
            if marks {
                assert(header_taken(orig, i + 1));
            } else {
                assert(forall|k: int| 0 <= k < i + 1 ==> !carries_legs_header(#[trigger] orig[k].label@) || header_taken(orig, i as int) || k < i);
                if header_taken(orig, i + 1) {
                    let k = choose|k: int| 0 <= k < i + 1 && carries_legs_header(#[trigger] orig[k].label@);
                    if k == i {
                        assert(false);
                    }
                    assert(header_taken(orig, i as int));
                }
                if header_taken(orig, i as int) {
                    let k = choose|k: int| 0 <= k < i && carries_legs_header(#[trigger] orig[k].label@);
                    assert(header_taken(orig, i + 1));
                }
            }
        }
        i = i + 1;
    }
}

// ─────────────────────────────── renumbering legs ───────────────────────────────

/// The labels of a form's fields, in order.
pub open spec fn labels_of(fields: Seq<EditField>) -> Seq<Seq<char>> {
    fields.map_values(|f: EditField| f.label@)
}

/// The label prefix of leg `n`: `Leg n ` (with the trailing space).
pub open spec fn leg_prefix(n: nat) -> Seq<char> {
    "Leg "@ + decimal(n) + " "@
}

/// `label` with its `Leg old ` prefix replaced by `Leg new `; other labels
/// are unchanged.
pub open spec fn relabel(label: Seq<char>, old: nat, new: nat) -> Seq<char> {
    let p = leg_prefix(old);
    if label.len() >= p.len() && label.take(p.len() as int) == p {
        leg_prefix(new) + label.skip(p.len() as int)
    } else {
        label
    }
}

/// The labels after the first `k` renumbering passes: pass `j` moves the
/// legs numbered `nums[j]` to number `j + 1` (when they differ).
pub open spec fn renumber_passes(labels: Seq<Seq<char>>, nums: Seq<nat>, k: nat) -> Seq<Seq<char>>
    decreases k,
{
    if k == 0 {
        labels
    } else {
        let prev = renumber_passes(labels, nums, (k - 1) as nat);
        let old = nums[k - 1];
        if old == k { prev } else { prev.map_values(|l: Seq<char>| relabel(l, old, k)) }
    }
}

/// Whether `nums` lists, each once and ascending, the leg numbers of `labels`.
pub open spec fn leg_numbers_sorted(nums: Seq<nat>, labels: Seq<Seq<char>>) -> bool {
    &&& forall|i: int, j: int| #![trigger nums[i], nums[j]] 0 <= i < j < nums.len() ==> nums[i] < nums[j]
    &&& forall|n: nat| nums.contains(n) <==> exists|i: int| 0 <= i < labels.len() && leg_number(#[trigger] labels[i]) == Some(n)
}

fn has_prefix(label: &[char], p: &[char]) -> (r: bool)
    ensures
        r == (label@.len() >= p@.len() && label@.take(p@.len() as int) == p@),
{
    if label.len() < p.len() {
        return false;
    }
    let mut i: usize = 0;
    while i < p.len()
        invariant
            i <= p@.len(),
            p@.len() <= label@.len(),
            forall|k: int| 0 <= k < i ==> label@[k] == p@[k],
        decreases p@.len() - i,
    {
        if label[i] != p[i] {
            proof {
                assert(label@.take(p@.len() as int)[i as int] != p@[i as int]);
            }
            return false;
        }
        i = i + 1;
    }
    proof {
        assert(label@.take(p@.len() as int) =~= p@);
    }
    true
}

fn leg_prefix_text(n: usize) -> (r: Vec<char>)
    ensures
        r@ == leg_prefix(n as nat),
{
    let mut s = "Leg ".to_string();
    crate::text::push_decimal(&mut s, n);
    crate::text::push_str(&mut s, " ");
    chars_of(s.as_str())
}

fn relabel_exec(label: &String, old: usize, new: usize) -> (r: String)
    ensures
        r@ == relabel(label@, old as nat, new as nat),
{
    let cs = chars_of(label.as_str());
    let p = leg_prefix_text(old);
    if has_prefix(cs.as_slice(), p.as_slice()) {
        let mut out = String::new();
        let q = leg_prefix_text(new);
        crate::text::push_chars(&mut out, q.as_slice());
        let rest = crate::text::sub_chars(cs.as_slice(), p.len(), cs.len());
        crate::text::push_chars(&mut out, rest.as_slice());
        proof {
            assert(rest@ =~= label@.skip(p@.len() as int));
            assert(out@ =~= leg_prefix(new as nat) + label@.skip(p@.len() as int));
        }
        out
    } else {
        label.clone()
    }
}

/// The distinct leg numbers of the fields' labels, ascending.
pub fn sorted_leg_numbers(fields: &[EditField]) -> (r: Vec<usize>)
    ensures
        leg_numbers_sorted(r@.map_values(|n: usize| n as nat), labels_of(fields@)),
{
    let ghost labels = labels_of(fields@);
    let mut pairs: Vec<(i64, u64)> = Vec::new();
    let mut i: usize = 0;
    while i < fields.len()
        invariant
            i <= fields@.len(),
            labels == labels_of(fields@),
            forall|k: (i64, u64)| pairs@.contains(k) <==> (k.0 == 0 && exists|j: int| 0 <= j < i && leg_number(#[trigger] labels[j]) == Some(k.1 as nat)),
        decreases fields@.len() - i,
    {
        let ghost before = pairs@;
        let found = extract_leg_number(fields[i].label.as_str());
        proof {
            assert(labels[i as int] == fields@[i as int].label@);
        }
        if let Some(n) = found {
            pairs.push((0, n as u64));
        }
        proof {
            assert forall|k: (i64, u64)| pairs@.contains(k) <==> (k.0 == 0 && exists|j: int| 0 <= j < i + 1 && leg_number(#[trigger] labels[j]) == Some(k.1 as nat)) by {
                if pairs@.contains(k) && !before.contains(k) {
                    let t = choose|t: int| 0 <= t < pairs@.len() && pairs@[t] == k;
                    assert(t == before.len());
                    assert(leg_number(labels[i as int]) == Some(k.1 as nat));
                }
                if before.contains(k) {
                    let t = choose|t: int| 0 <= t < before.len() && before[t] == k;
                    assert(pairs@[t] == k);
                }
                if k.0 == 0 && (exists|j: int| 0 <= j < i + 1 && leg_number(#[trigger] labels[j]) == Some(k.1 as nat)) {
                    let j = choose|j: int| 0 <= j < i + 1 && leg_number(#[trigger] labels[j]) == Some(k.1 as nat);
                    if j == i {
                        assert(pairs@[before.len() as int] == k);
                    }
                }
            }
        }
        i = i + 1;
    }
    let sorted = crate::calculations::sorted_pairs(pairs.as_slice());
    let mut r: Vec<usize> = Vec::new();
    let mut t: usize = 0;
    while t < sorted.len()
        invariant
            t <= sorted@.len(),
            crate::calculations::pairs_ascending(sorted@),
            forall|k: (i64, u64)| sorted@.contains(k) <==> (k.0 == 0 && exists|j: int| 0 <= j < labels.len() && leg_number(#[trigger] labels[j]) == Some(k.1 as nat)),
            r@.len() == t,
            forall|q: int| 0 <= q < t ==> (#[trigger] r@[q]) as nat == sorted@[q].1 as nat,
        decreases sorted@.len() - t,
    {
        let e = sorted[t];
        proof {
            assert(sorted@.contains(e));
            let j = choose|j: int| 0 <= j < labels.len() && leg_number(#[trigger] labels[j]) == Some(e.1 as nat);
            assert(leg_number(labels[j]) == Some(e.1 as nat));
            assert(e.1 as nat <= usize::MAX) by {
                crate::text::lemma_parse_bounded(before_space(labels[j].skip(4)));
            }
        }
        r.push(e.1 as usize);
        t = t + 1;
    }
    proof {
        let nums = r@.map_values(|n: usize| n as nat);
        assert forall|a: int| 0 <= a < sorted@.len() implies (#[trigger] sorted@[a]).0 == 0 by {
            assert(sorted@.contains(sorted@[a]));
        }
        assert forall|a: int, b: int| #![trigger nums[a], nums[b]] 0 <= a < b < nums.len() implies nums[a] < nums[b] by {
            assert(crate::calculations::pair_before(sorted@[a], sorted@[b]));
            assert(sorted@.contains(sorted@[a]));
            assert(sorted@.contains(sorted@[b]));
        }
        assert forall|n: nat| nums.contains(n) <==> exists|i: int| 0 <= i < labels.len() && leg_number(#[trigger] labels[i]) == Some(n) by {
            if nums.contains(n) {
                let q = choose|q: int| 0 <= q < nums.len() && nums[q] == n;
                assert(sorted@.contains(sorted@[q]));
                assert(r@[q] as nat == n);
            }
            if exists|i: int| 0 <= i < labels.len() && leg_number(#[trigger] labels[i]) == Some(n) {
                let i = choose|i: int| 0 <= i < labels.len() && leg_number(#[trigger] labels[i]) == Some(n);
                assert(n <= usize::MAX) by {
                    crate::text::lemma_parse_bounded(before_space(labels[i].skip(4)));
                }
                let k = (0i64, n as u64);
                assert(sorted@.contains(k));
                let q = choose|q: int| 0 <= q < sorted@.len() && sorted@[q] == k;
                assert(nums[q] == n);
            }
        }
    }
    r
}

/// Renumbers the legs of a form 1, 2, 3, ... in the order of their
/// numbers, after a leg was deleted: one pass per leg number, each
/// relabelling every field that starts with `Leg old `.
pub fn renumber_leg_fields(fields: &mut Vec<EditField>)
    ensures
        final(fields)@.len() == old(fields)@.len(),
        exists|nums: Seq<nat>| {
            &&& #[trigger] leg_numbers_sorted(nums, labels_of(old(fields)@))
            &&& labels_of(final(fields)@) == renumber_passes(labels_of(old(fields)@), nums, nums.len())
        },
        forall|i: int| 0 <= i < old(fields)@.len() ==> {
            &&& (#[trigger] final(fields)@[i]).value == old(fields)@[i].value
            &&& final(fields)@[i].kind == old(fields)@[i].kind
            &&& final(fields)@[i].section_header == old(fields)@[i].section_header
        },
{
    let ghost orig = fields@;
    let ghost labels0 = labels_of(fields@);
    let nums = sorted_leg_numbers(fields.as_slice());
    let ghost nv = nums@.map_values(|n: usize| n as nat);
    let mut k: usize = 0;
    while k < nums.len()
        invariant
            k <= nums@.len(),
            nv == nums@.map_values(|n: usize| n as nat),
            fields@.len() == orig.len(),
            labels_of(fields@) == renumber_passes(labels0, nv, k as nat),
            forall|i: int| 0 <= i < orig.len() ==> {
                &&& (#[trigger] fields@[i]).value == orig[i].value
                &&& fields@[i].kind == orig[i].kind
                &&& fields@[i].section_header == orig[i].section_header
            },
        decreases nums@.len() - k,
    {
        let old_num = nums[k];
        let new_num = k + 1;
        let ghost prev = labels_of(fields@);
        if old_num != new_num {
            let mut i: usize = 0;
            while i < fields.len()
                invariant
                    i <= fields@.len(),
                    fields@.len() == orig.len(),
                    prev.len() == orig.len(),
                    forall|j: int| 0 <= j < i ==> (#[trigger] fields@[j]).label@ == relabel(prev[j], old_num as nat, new_num as nat),
                    forall|j: int| i <= j < fields@.len() ==> (#[trigger] fields@[j]).label@ == prev[j],
                    forall|j: int| 0 <= j < orig.len() ==> {
                        &&& (#[trigger] fields@[j]).value == orig[j].value
                        &&& fields@[j].kind == orig[j].kind
                        &&& fields@[j].section_header == orig[j].section_header
                    },
                decreases fields@.len() - i,
            {
                let mut f = fields.remove(i);
                f.label = relabel_exec(&f.label, old_num, new_num);
                fields.insert(i, f);
                i = i + 1;
            }
            proof {
                assert(labels_of(fields@)
                    =~= prev.map_values(|l: Seq<char>| relabel(l, old_num as nat, new_num as nat)));
            }
        }
        proof {
            assert(nv[k as int] == old_num as nat);
        }
        k = k + 1;
    }
}

/// Whether a label is written as the form writes leg labels: a label with
/// a leg number `N` starts with `Leg N ` (canonical decimal) and `N >= 1`.
pub open spec fn canonical_leg_label(label: Seq<char>) -> bool {
    leg_number(label) matches Some(n) ==> {
        &&& n >= 1
        &&& label.len() >= leg_prefix(n).len()
        &&& label.take(leg_prefix(n).len() as int) == leg_prefix(n)
    }
}

/// A label that starts with `Leg n ` has leg number `n`.
proof fn lemma_prefixed_leg_number(n: nat, rest: Seq<char>)
    requires
        n <= usize::MAX,
    ensures
        leg_number(leg_prefix(n) + rest) == Some(n),
{
    reveal_strlit("Leg ");
    reveal_strlit(" ");
    crate::text::lemma_decimal_digits(n);
    crate::text::lemma_parse_decimal(n);
    let d = decimal(n);
    let label = leg_prefix(n) + rest;
    assert(label.take(4) =~= "Leg "@);
    let tail = label.skip(4);
    assert(tail =~= d + " "@ + rest);
    assert forall|j: int| 0 <= j < d.len() implies tail[j] != ' ' by {
        assert(tail[j] == d[j]);
        assert(crate::text::is_digit(d[j]));
    }
    assert(tail[d.len() as int] == ' ');
    lemma_before_space_take(tail, d.len() as int);
    assert(tail.take(d.len() as int) =~= d);
}

/// How one renumbering pass acts on a label written as the form writes
/// them: the label of leg `old` moves to leg `new`, every other label stays.
proof fn lemma_relabel_canonical(label: Seq<char>, old: nat, new: nat)
    requires
        canonical_leg_label(label),
        old <= usize::MAX,
    ensures
        leg_number(label) == Some(old) ==> relabel(label, old, new) == leg_prefix(new) + label.skip(leg_prefix(old).len() as int),
        leg_number(label) != Some(old) ==> relabel(label, old, new) == label,
{
    let p = leg_prefix(old);
    if label.len() >= p.len() && label.take(p.len() as int) == p {
        lemma_prefixed_leg_number(old, label.skip(p.len() as int));
        assert(p + label.skip(p.len() as int) =~= label);
    }
}

proof fn lemma_ascending_from_one(nums: Seq<nat>, j: int)
    requires
        forall|a: int, b: int| #![trigger nums[a], nums[b]] 0 <= a < b < nums.len() ==> nums[a] < nums[b],
        nums.len() > 0 ==> nums[0] >= 1,
        0 <= j < nums.len(),
    ensures
        nums[j] >= j + 1,
    decreases j,
{
    if j > 0 {
        lemma_ascending_from_one(nums, j - 1);
        assert(nums[j - 1] < nums[j]);
    }
}

/// The `j`-th of the ascending leg numbers of labels written as the form
/// writes them is at least `j + 1`, and each fits a `usize`.
proof fn lemma_leg_numbers_from_one(labels: Seq<Seq<char>>, nums: Seq<nat>)
    requires
        leg_numbers_sorted(nums, labels),
        forall|i: int| 0 <= i < labels.len() ==> canonical_leg_label(#[trigger] labels[i]),
    ensures
        forall|j: int| 0 <= j < nums.len() ==> #[trigger] nums[j] >= j + 1 && nums[j] <= usize::MAX,
{
    assert forall|j: int| 0 <= j < nums.len() implies #[trigger] nums[j] >= j + 1 && nums[j] <= usize::MAX by {
        assert(nums.contains(nums[0]));
        let w0 = choose|w0: int| 0 <= w0 < labels.len() && leg_number(#[trigger] labels[w0]) == Some(nums[0]);
        assert(canonical_leg_label(labels[w0]));
        lemma_ascending_from_one(nums, j);
        assert(nums.contains(nums[j]));
        let w = choose|w: int| 0 <= w < labels.len() && leg_number(#[trigger] labels[w]) == Some(nums[j]);
        crate::text::lemma_parse_bounded(before_space(labels[w].skip(4)));
    }
}

/// The labels after `k` renumbering passes, leg by leg: the legs with the
/// `k` smallest numbers are already moved, the others are untouched.
proof fn lemma_renumber_passes_progress(labels: Seq<Seq<char>>, nums: Seq<nat>, k: nat)
    requires
        leg_numbers_sorted(nums, labels),
        forall|i: int| 0 <= i < labels.len() ==> canonical_leg_label(#[trigger] labels[i]),
        k <= nums.len(),
    ensures
        renumber_passes(labels, nums, k).len() == labels.len(),
        forall|i: int, j: int| #![trigger renumber_passes(labels, nums, k)[i], nums[j]]
            0 <= i < labels.len() && 0 <= j < nums.len() && leg_number(labels[i]) == Some(nums[j])
            ==> renumber_passes(labels, nums, k)[i] == (if j < k {
                leg_prefix((j + 1) as nat) + labels[i].skip(leg_prefix(nums[j]).len() as int)
            } else {
                labels[i]
            }),
        forall|i: int| 0 <= i < labels.len() && leg_number(labels[i]) is None
            ==> #[trigger] renumber_passes(labels, nums, k)[i] == labels[i],
    decreases k,
{
    if k > 0 {
        let km = (k - 1) as nat;
        lemma_renumber_passes_progress(labels, nums, km);
        let prev = renumber_passes(labels, nums, km);
        let old = nums[km as int];
        let new = k;
        assert(nums.contains(old));
        let w = choose|w: int| 0 <= w < labels.len() && leg_number(#[trigger] labels[w]) == Some(old);
        crate::text::lemma_parse_bounded(before_space(labels[w].skip(4)));
        assert(old <= usize::MAX);
        lemma_leg_numbers_from_one(labels, nums);
        let cur = renumber_passes(labels, nums, k);
        assert forall|i: int, j: int| #![trigger cur[i], nums[j]]
            0 <= i < labels.len() && 0 <= j < nums.len() && leg_number(labels[i]) == Some(nums[j])
            implies cur[i] == (if j < k {
                leg_prefix((j + 1) as nat) + labels[i].skip(leg_prefix(nums[j]).len() as int)
            } else {
                labels[i]
            }) by {
            assert(prev[i] == (if j < km {
                leg_prefix((j + 1) as nat) + labels[i].skip(leg_prefix(nums[j]).len() as int)
            } else {
                labels[i]
            }));
            assert(canonical_leg_label(labels[i]));
            if old == new {
                if j == km {
                    assert(labels[i].take(leg_prefix(old).len() as int) == leg_prefix(old));
                    assert(labels[i] =~= leg_prefix(old) + labels[i].skip(leg_prefix(old).len() as int));
                }
            } else {
                assert(cur[i] == relabel(prev[i], old, new));
                if j < km {
                    let rest = labels[i].skip(leg_prefix(nums[j]).len() as int);
                    assert(nums[j] >= j + 1);
                    assert(nums[km as int] >= km + 1);
                    lemma_prefixed_leg_number((j + 1) as nat, rest);
                    assert(prev[i].take(leg_prefix((j + 1) as nat).len() as int) =~= leg_prefix((j + 1) as nat));
                    lemma_relabel_canonical(prev[i], old, new);
                } else if j == km {
                    lemma_relabel_canonical(labels[i], old, new);
                } else {
                    assert(nums[km as int] < nums[j]);
                    lemma_relabel_canonical(labels[i], old, new);
                }
            }
        }
        assert forall|i: int| 0 <= i < labels.len() && leg_number(labels[i]) is None
            implies #[trigger] cur[i] == labels[i] by {
            assert(prev[i] == labels[i]);
            if old != new {
                lemma_relabel_canonical(labels[i], old, new);
            }
        }
    }
}

/// Renumbering after a deletion numbers the legs 1, 2, 3, ... in the order
/// of their old numbers: every field of the leg with the `j`-th smallest
/// number (counting from 0) is moved to leg `j + 1` and keeps the rest of
/// its label, and fields of no leg keep their labels. This holds for labels
/// written as the form writes them (`Leg N ...`, `N >= 1`), with `nums` the
/// leg numbers as `renumber_leg_fields` lists them.
pub proof fn lemma_renumber_makes_legs_consecutive(labels: Seq<Seq<char>>, nums: Seq<nat>)
    requires
        leg_numbers_sorted(nums, labels),
        forall|i: int| 0 <= i < labels.len() ==> canonical_leg_label(#[trigger] labels[i]),
    ensures
        renumber_passes(labels, nums, nums.len()).len() == labels.len(),
        forall|i: int, j: int| #![trigger renumber_passes(labels, nums, nums.len())[i], nums[j]]
            0 <= i < labels.len() && 0 <= j < nums.len() && leg_number(labels[i]) == Some(nums[j]) ==> {
                &&& renumber_passes(labels, nums, nums.len())[i]
                    == leg_prefix((j + 1) as nat) + labels[i].skip(leg_prefix(nums[j]).len() as int)
                &&& leg_number(renumber_passes(labels, nums, nums.len())[i]) == Some((j + 1) as nat)
            },
        forall|i: int| 0 <= i < labels.len() && leg_number(labels[i]) is None
            ==> #[trigger] renumber_passes(labels, nums, nums.len())[i] == labels[i],
{
    lemma_renumber_passes_progress(labels, nums, nums.len());
    let fin = renumber_passes(labels, nums, nums.len());
    assert forall|i: int, j: int| #![trigger fin[i], nums[j]]
        0 <= i < labels.len() && 0 <= j < nums.len() && leg_number(labels[i]) == Some(nums[j])
        implies leg_number(fin[i]) == Some((j + 1) as nat) by {
        assert(canonical_leg_label(labels[i]));
        lemma_leg_numbers_from_one(labels, nums);
        assert(nums[j] >= j + 1 && nums[j] <= usize::MAX);
        lemma_prefixed_leg_number((j + 1) as nat, labels[i].skip(leg_prefix(nums[j]).len() as int));
    }
}

// ─────────────────────────────── adding and deleting legs ───────────────────────────────

/// The fields of a new blank leg number `n`: type (short put), strike,
/// premium, close premium, expiry and quantity (one).
pub fn new_leg_fields(n: usize) -> (r: Vec<EditField>)
    ensures
        r@.len() == 6,
        r@[0].label@ == leg_prefix(n as nat) + "Type"@ && r@[0].value@ == "0"@,
        r@[0].kind matches FieldKind::Select(o) && o@.len() == 4
            && (forall|i: int| 0 <= i < 4 ==> #[trigger] o@[i]@ == crate::models::leg_options()[i]),
        r@[1].label@ == leg_prefix(n as nat) + "Strike"@ && r@[1].value@ == "0.00"@ && r@[1].kind == FieldKind::Number,
        r@[2].label@ == leg_prefix(n as nat) + "Premium"@ && r@[2].value@ == "0.0000"@ && r@[2].kind == FieldKind::Number,
        r@[3].label@ == leg_prefix(n as nat) + "Close"@ && r@[3].value@ == ""@ && r@[3].kind == FieldKind::Number,
        r@[4].label@ == leg_prefix(n as nat) + "Expiry"@ && r@[4].value@ == ""@ && r@[4].kind == FieldKind::Date,
        r@[5].label@ == leg_prefix(n as nat) + "Qty"@ && r@[5].value@ == "1"@ && r@[5].kind == FieldKind::Number,
        forall|i: int| 0 <= i < 6 ==> (#[trigger] r@[i]).section_header is None,
{
    let p = leg_prefix_text(n);
    let mut labels: Vec<String> = Vec::new();
    let names = ["Type", "Strike", "Premium", "Close", "Expiry", "Qty"];
    let mut k: usize = 0;
    while k < 6
        invariant
            k <= 6,
            labels@.len() == k,
            forall|j: int| 0 <= j < k ==> (#[trigger] labels@[j])@ == p@ + names@[j]@,
        decreases 6 - k,
    {
        let mut l = String::new();
        crate::text::push_chars(&mut l, p.as_slice());
        crate::text::push_str(&mut l, names[k]);
        proof {
            assert(l@ =~= p@ + names@[k as int]@);
        }
        labels.push(l);
        k = k + 1;
    }
    let opts = crate::models::LegType::all_options();
    let r = vec![
        EditField::select(labels[0].as_str(), "0", opts),
        EditField::number(labels[1].as_str(), "0.00"),
        EditField::number(labels[2].as_str(), "0.0000"),
        EditField::number(labels[3].as_str(), ""),
        EditField::date(labels[4].as_str(), ""),
        EditField::number(labels[5].as_str(), "1"),
    ];
    r
}

/// Where a new leg's fields go: before the add-leg button, else before the
/// first field whose section header mentions `Exit`, else at the end.
pub open spec fn leg_insert_spec(fields: Seq<EditField>) -> int {
    match first_button(fields) {
        Some(i) => i,
        None => match first_exit_header(fields) {
            Some(i) => i,
            None => fields.len() as int,
        },
    }
}

/// Position of the first button field.
pub open spec fn first_button(fields: Seq<EditField>) -> Option<int>
    decreases fields.len(),
{
    if fields.len() == 0 {
        None
    } else if fields[0].kind is Button {
        Some(0)
    } else {
        match first_button(fields.drop_first()) {
            Some(i) => Some(i + 1),
            None => None,
        }
    }
}

/// Whether a field's section header mentions `Exit`.
pub open spec fn exit_header(f: EditField) -> bool {
    match f.section_header {
        Some(h) => crate::text::contains_sub(h@, "Exit"@),
        None => false,
    }
}

/// Position of the first field whose section header mentions `Exit`.
pub open spec fn first_exit_header(fields: Seq<EditField>) -> Option<int>
    decreases fields.len(),
{
    if fields.len() == 0 {
        None
    } else if exit_header(fields[0]) {
        Some(0)
    } else {
        match first_exit_header(fields.drop_first()) {
            Some(i) => Some(i + 1),
            None => None,
        }
    }
}

fn is_exit_header(f: &EditField) -> (r: bool)
    ensures
        r == exit_header(*f),
{
    match &f.section_header {
        Some(h) => crate::text::str_contains_str(h.as_str(), "Exit"),
        None => false,
    }
}

/// Where a new leg's fields are inserted.
pub fn leg_insert_position(fields: &[EditField]) -> (r: usize)
    ensures
        r as int == leg_insert_spec(fields@),
{
    let mut i: usize = 0;
    proof {
        assert(fields@.skip(0) =~= fields@);
    }
    while i < fields.len()
        invariant
            i <= fields@.len(),
            first_button(fields@) == (match first_button(fields@.skip(i as int)) {
                Some(k) => Some(k + i),
                None => None::<int>,
            }),
        decreases fields@.len() - i,
    {
        proof {
            assert(fields@.skip(i as int)[0] == fields@[i as int]);
            assert(fields@.skip(i as int).drop_first() =~= fields@.skip(i + 1));
        }
        if matches!(fields[i].kind, FieldKind::Button(_)) {
            return i;
        }
        i = i + 1;
    }
    let mut j: usize = 0;
    proof {
        assert(fields@.skip(0) =~= fields@);
    }
    while j < fields.len()
        invariant
            j <= fields@.len(),
            first_button(fields@) is None,
            first_exit_header(fields@) == (match first_exit_header(fields@.skip(j as int)) {
                Some(k) => Some(k + j),
                None => None::<int>,
            }),
        decreases fields@.len() - j,
    {
        proof {
            assert(fields@.skip(j as int)[0] == fields@[j as int]);
            assert(fields@.skip(j as int).drop_first() =~= fields@.skip(j + 1));
        }
        if is_exit_header(&fields[j]) {
            return j;
        }
        j = j + 1;
    }
    fields.len()
}

/// The fields that do not belong to leg `n`, in order.
pub open spec fn without_leg(fields: Seq<EditField>, n: nat) -> Seq<EditField>
    decreases fields.len(),
{
    if fields.len() == 0 {
        Seq::empty()
    } else {
        let prev = without_leg(fields.drop_last(), n);
        if leg_number(fields.last().label@) == Some(n) { prev } else { prev.push(fields.last()) }
    }
}

/// Drops every field of leg `n`.
pub fn remove_leg_fields(fields: &mut Vec<EditField>, n: usize)
    ensures
        final(fields)@ == without_leg(old(fields)@, n as nat),
{
    let mut kept: Vec<EditField> = Vec::new();
    let ghost orig = fields@;
    let mut taken: Vec<EditField> = Vec::new();
    std::mem::swap(&mut taken, fields);
    let mut i: usize = 0;
    let ghost src = taken@;
    let total: usize = taken.len();
    proof {
        assert(src.take(0) =~= Seq::<EditField>::empty());
        assert(src.skip(0) =~= src);
    }
    while taken.len() > 0
        invariant
            src == orig,
            total == src.len(),
            i <= src.len(),
            taken@ == src.skip(i as int),
            kept@ == without_leg(src.take(i as int), n as nat),
        decreases taken@.len(),
    {
        let f = taken.remove(0);
        proof {
            assert(src.skip(i as int).drop_first() =~= src.skip(i + 1));
            assert(src.skip(i as int)[0] == src[i as int]);
            assert(src.take(i + 1).drop_last() =~= src.take(i as int));
            assert(src.take(i + 1).last() == src[i as int]);
            assert(f == src[i as int]);
        }
        let belongs = match extract_leg_number(f.label.as_str()) {
            Some(m) => m == n,
            None => false,
        };
        if !belongs {
            kept.push(f);
        }
        i = i + 1;
    }
    proof {
        assert(i == src.len());
        assert(src.take(i as int) =~= src);
    }
    *fields = kept;
}

// ─────────────────────────────── strategy lists ───────────────────────────────

/// The strategies offered in the trade form, in selection order.
pub open spec fn form_strategies() -> Seq<StrategyType> {
    seq![
        StrategyType::ShortPutVertical,
        StrategyType::ShortCallVertical,
        StrategyType::IronCondor,
        StrategyType::IronButterfly,
        StrategyType::Strangle,
        StrategyType::Straddle,
        StrategyType::CalendarSpread,
        StrategyType::CashSecuredPut,
        StrategyType::CoveredCall,
        StrategyType::Pmcc,
        StrategyType::LongDiagonalSpread,
        StrategyType::ShortDiagonalSpread,
        StrategyType::LongCallVertical,
        StrategyType::LongPutVertical,
        StrategyType::PutZebra,
        StrategyType::CallZebra,
        StrategyType::Custom,
    ]
}

/// The strategies offered in the trade form, in selection order.
pub fn all_strategy_types() -> (v: Vec<StrategyType>)
    ensures
        v@ == form_strategies(),
{
    vec![
        StrategyType::ShortPutVertical,
        StrategyType::ShortCallVertical,
        StrategyType::IronCondor,
        StrategyType::IronButterfly,
        StrategyType::Strangle,
        StrategyType::Straddle,
        StrategyType::CalendarSpread,
        StrategyType::CashSecuredPut,
        StrategyType::CoveredCall,
        StrategyType::Pmcc,
        StrategyType::LongDiagonalSpread,
        StrategyType::ShortDiagonalSpread,
        StrategyType::LongCallVertical,
        StrategyType::LongPutVertical,
        StrategyType::PutZebra,
        StrategyType::CallZebra,
        StrategyType::Custom,
    ]
}

/// Strategies whose legs each carry their own expiry: calendars, diagonals,
/// PMCC, ZEBRAs and custom positions.
pub fn strategy_shows_per_leg_expiry(strategy: &StrategyType) -> (r: bool)
    ensures
        r == (*strategy is CalendarSpread || *strategy is LongDiagonalSpread
            || *strategy is ShortDiagonalSpread || *strategy is Pmcc || *strategy is PutZebra
            || *strategy is CallZebra || *strategy is Custom),
{
    matches!(strategy,
        StrategyType::CalendarSpread
        | StrategyType::LongDiagonalSpread
        | StrategyType::ShortDiagonalSpread
        | StrategyType::Pmcc
        | StrategyType::PutZebra
        | StrategyType::CallZebra
        | StrategyType::Custom)
}

/// Strategies whose legs each carry their own quantity: ZEBRAs and custom.
pub fn strategy_shows_per_leg_qty(strategy: &StrategyType) -> (r: bool)
    ensures
        r == (*strategy is PutZebra || *strategy is CallZebra || *strategy is Custom),
{
    matches!(strategy, StrategyType::PutZebra | StrategyType::CallZebra | StrategyType::Custom)
}

/// The strategy a form's `Strategy` select designates: the first field
/// labelled `Strategy` is read as an index into the offered strategies;
/// no such field, or an index out of range, gives `Custom`.
pub open spec fn form_strategy(fields: Seq<EditField>) -> StrategyType
    decreases fields.len(),
{
    if fields.len() == 0 {
        StrategyType::Custom
    } else if fields[0].label@ == "Strategy"@ {
        let i = select_index(fields[0].value@);
        if i < form_strategies().len() { form_strategies()[i as int] } else { StrategyType::Custom }
    } else {
        form_strategy(fields.drop_first())
    }
}

/// Reads the strategy chosen in a trade form.
pub fn get_strategy_from_fields(fields: &[EditField]) -> (r: StrategyType)
    ensures
        r == form_strategy(fields@),
{
    let mut i: usize = 0;
    proof {
        assert(fields@.skip(0) =~= fields@);
    }
    while i < fields.len()
        invariant
            i <= fields@.len(),
            form_strategy(fields@) == form_strategy(fields@.skip(i as int)),
        decreases fields@.len() - i,
    {
        if crate::text::str_eq(fields[i].label.as_str(), "Strategy") {
            let idx = read_select_index(fields[i].value.as_str());
            let all = all_strategy_types();
            proof {
                assert(fields@.skip(i as int)[0] == fields@[i as int]);
            }
            if idx < all.len() {
                return all[idx];
            }
            return StrategyType::Custom;
        }
        proof {
            assert(fields@.skip(i as int).drop_first() =~= fields@.skip(i + 1));
        }
        i = i + 1;
    }
    StrategyType::Custom
}

/// The spread-type keys offered in the playbook form, in selection order.
pub open spec fn playbook_spread_keys() -> Seq<Seq<char>> {
    seq![
        "short_put_vertical"@, "short_call_vertical"@, "iron_condor"@, "iron_butterfly"@,
        "strangle"@, "straddle"@, "cash_secured_put"@, "covered_call"@, "calendar_spread"@,
        "pmcc"@, "long_diagonal_spread"@, "short_diagonal_spread"@, "long_call_vertical"@,
        "long_put_vertical"@, "zebra"@, "custom"@,
    ]
}

/// The spread-type keys offered in the playbook form, in selection order.
pub fn all_spread_type_strings() -> (v: Vec<String>)
    ensures
        v@.map_values(|s: String| s@) == playbook_spread_keys(),
{
    let v = vec![
        "short_put_vertical".to_string(),
        "short_call_vertical".to_string(),
        "iron_condor".to_string(),
        "iron_butterfly".to_string(),
        "strangle".to_string(),
        "straddle".to_string(),
        "cash_secured_put".to_string(),
        "covered_call".to_string(),
        "calendar_spread".to_string(),
        "pmcc".to_string(),
        "long_diagonal_spread".to_string(),
        "short_diagonal_spread".to_string(),
        "long_call_vertical".to_string(),
        "long_put_vertical".to_string(),
        "zebra".to_string(),
        "custom".to_string(),
    ];
    proof {
        assert(v@.map_values(|s: String| s@) =~= playbook_spread_keys());
    }
    v
}


} // verus!
