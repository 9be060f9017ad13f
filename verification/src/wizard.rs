//! The interactive shell's view of the engine: payload decoding, prompt
//! contexts and answer parsing, all pure — printing and reading lines
//! belong to the host.

use vstd::prelude::*;
use vstd::string::StrSliceExecFns;

use crate::json::{get_field, jview, jview_arr, JsonValue, JsonView};
use crate::strutil::{
    ascii_lower, eq_ignore_ascii_case, parse_i64, parse_i64_spec, push_char, push_str, str_eq,
    to_string,
};

verus! {

/// Controls which bits of state the shell prints.
#[derive(PartialEq, Eq, Structural, Clone, Copy)]
pub enum Verbosity {
    /// Clean output: question prompts only.
    Clean,
    /// Verbose output: status, visible questions, error details, help.
    Verbose,
}

impl Verbosity {
    /// The verbosity picked by a flag.
    pub fn from_verbose(verbose: bool) -> (r: Verbosity)
        ensures
            r == (if verbose {
                Verbosity::Verbose
            } else {
                Verbosity::Clean
            }),
    {
        if verbose {
            Verbosity::Verbose
        } else {
            Verbosity::Clean
        }
    }

    /// Whether this verbosity is the verbose one.
    pub fn is_verbose(&self) -> (r: bool)
        ensures
            r == (*self == Verbosity::Verbose),
    {
        matches!(self, Verbosity::Verbose)
    }
}

/// The presenter's configuration: what the shell shows and whether the
/// header went out already.
pub struct WizardPresenter {
    pub verbosity: Verbosity,
    pub header_printed: bool,
    pub show_answers_json: bool,
}

impl WizardPresenter {
    /// A fresh presenter that has not printed its header yet.
    pub fn new(verbosity: Verbosity, show_answers_json: bool) -> (r: WizardPresenter)
        ensures
            r.verbosity == verbosity,
            !r.header_printed,
            r.show_answers_json == show_answers_json,
    {
        WizardPresenter { verbosity, header_printed: false, show_answers_json }
    }
}

/// Progress counters from the render payload.
pub struct RenderProgress {
    pub answered: usize,
    pub total: usize,
}

/// Status decoded from a rendered payload.
#[derive(PartialEq, Eq, Structural, Clone, Copy, Debug)]
pub enum RenderStatus {
    NeedInput,
    Complete,
    Error,
}

/// The wire label of a shell-side status.
pub open spec fn wizard_status_label(s: RenderStatus) -> Seq<char> {
    match s {
        RenderStatus::NeedInput => "need_input"@,
        RenderStatus::Complete => "complete"@,
        RenderStatus::Error => "error"@,
    }
}

/// The status a label decodes to: unknown labels mean more input.
pub open spec fn status_of_label(label: Seq<char>) -> RenderStatus {
    if label == "complete"@ {
        RenderStatus::Complete
    } else if label == "error"@ {
        RenderStatus::Error
    } else {
        RenderStatus::NeedInput
    }
}

impl RenderStatus {
    /// The wire label of this status.
    pub fn as_str(&self) -> (r: &'static str)
        ensures
            r@ == wizard_status_label(*self),
    {
        match self {
            RenderStatus::NeedInput => "need_input",
            RenderStatus::Complete => "complete",
            RenderStatus::Error => "error",
        }
    }

    /// Decodes a wire label; anything unknown asks for more input.
    pub fn from_label(label: &str) -> (r: RenderStatus)
        ensures
            r == status_of_label(label@),
    {
        if str_eq(label, "complete") {
            RenderStatus::Complete
        } else if str_eq(label, "error") {
            RenderStatus::Error
        } else {
            RenderStatus::NeedInput
        }
    }
}

/// Supported kinds for question prompts.
#[derive(PartialEq, Eq, Structural, Clone, Copy, Debug)]
pub enum QuestionKind {
    String,
    Boolean,
    Integer,
    Number,
    Enum,
    List,
    Unknown,
}

/// The kind a type label decodes to.
pub open spec fn kind_of_label(label: Seq<char>) -> QuestionKind {
    if label == "string"@ {
        QuestionKind::String
    } else if label == "boolean"@ {
        QuestionKind::Boolean
    } else if label == "integer"@ {
        QuestionKind::Integer
    } else if label == "number"@ {
        QuestionKind::Number
    } else if label == "enum"@ {
        QuestionKind::Enum
    } else if label == "list"@ {
        QuestionKind::List
    } else {
        QuestionKind::Unknown
    }
}

impl QuestionKind {
    /// Decodes a type label.
    pub fn from_label(label: &str) -> (r: QuestionKind)
        ensures
            r == kind_of_label(label@),
    {
        if str_eq(label, "string") {
            QuestionKind::String
        } else if str_eq(label, "boolean") {
            QuestionKind::Boolean
        } else if str_eq(label, "integer") {
            QuestionKind::Integer
        } else if str_eq(label, "number") {
            QuestionKind::Number
        } else if str_eq(label, "enum") {
            QuestionKind::Enum
        } else if str_eq(label, "list") {
            QuestionKind::List
        } else {
            QuestionKind::Unknown
        }
    }
}

/// The choice list joined with slashes.
pub open spec fn join_slash(cs: Seq<String>, from: int) -> Seq<char>
    decreases cs.len() - from,
        when 0 <= from <= cs.len()
{
    if from >= cs.len() {
        Seq::empty()
    } else if from == cs.len() - 1 {
        cs[from]@
    } else {
        cs[from]@ + seq!['/'] + join_slash(cs, from + 1)
    }
}

/// The prompt hint for one kind: the expected shape of the answer.
pub open spec fn hint_view(kind: QuestionKind, choices: Seq<String>) -> Option<Seq<char>> {
    match kind {
        QuestionKind::Boolean => Some("(yes/no, y/n, true/false)"@),
        QuestionKind::Integer => Some("(integer)"@),
        QuestionKind::Number => Some("(number)"@),
        QuestionKind::Enum => if choices.len() > 0 {
            Some(seq!['('] + join_slash(choices, 0) + seq![')'])
        } else {
            None
        },
        QuestionKind::List => Some("(repeatable list)"@),
        _ => None,
    }
}

impl QuestionKind {
    /// The prompt hint for this kind.
    pub fn hint(&self, choices: &Vec<String>) -> (r: Option<String>)
        ensures
            match (r, hint_view(*self, choices@)) {
                (Some(a), Some(b)) => a@ == b,
                (None, None) => true,
                _ => false,
            },
    {
        match self {
            QuestionKind::Boolean => Some(to_string("(yes/no, y/n, true/false)")),
            QuestionKind::Integer => Some(to_string("(integer)")),
            QuestionKind::Number => Some(to_string("(number)")),
            QuestionKind::Enum => {
                if choices.len() > 0 {
                    let mut out = to_string("(");
                    proof {
                        reveal_strlit("(");
                        assert(out@ =~= seq!['(']);
                    }
                    let n = choices.len();
                    push_str(&mut out, choices[0].as_str());
                    let mut i: usize = 1;
                    proof {
                        if n > 1 {
                            assert(join_slash(choices@, 0) =~= choices@[0]@ + seq!['/']
                                + join_slash(choices@, 1));
                            assert(out@ + (seq!['/'] + join_slash(choices@, 1)) =~= seq!['(']
                                + join_slash(choices@, 0));
                        } else {
                            assert(join_slash(choices@, 0) =~= choices@[0]@);
                            assert(out@ =~= seq!['('] + join_slash(choices@, 0));
                        }
                    }
                    while i < n
                        invariant
                            1 <= i <= n,
                            n == choices@.len(),
                            n >= 1,
                            (if i < n {
                                out@ + (seq!['/'] + join_slash(choices@, i as int))
                            } else {
                                out@
                            }) == seq!['('] + join_slash(choices@, 0),
                        decreases n - i,
                    {
                        push_char(&mut out, '/');
                        push_str(&mut out, choices[i].as_str());
                        proof {
                            if i + 1 < n {
                                assert(join_slash(choices@, i as int) =~= choices@[i as int]@
                                    + seq!['/'] + join_slash(choices@, i + 1));
                                assert(out@ + (seq!['/'] + join_slash(choices@, i + 1)) =~= seq![
                                    '(',
                                ] + join_slash(choices@, 0));
                            } else {
                                assert(join_slash(choices@, i as int) =~= choices@[i as int]@);
                                assert(out@ =~= seq!['('] + join_slash(choices@, 0));
                            }
                        }
                        i += 1;
                    }
                    push_char(&mut out, ')');
                    proof {
                        assert(out@ =~= seq!['('] + join_slash(choices@, 0) + seq![')']);
                    }
                    Some(out)
                } else {
                    None
                }
            },
            QuestionKind::List => Some(to_string("(repeatable list)")),
            _ => None,
        }
    }
}

/// Minimal view of a question used for rendering prompts.
pub struct WizardQuestion {
    pub id: String,
    pub title: String,
    pub description: Option<String>,
    pub kind: QuestionKind,
    pub required: bool,
    pub choices: Vec<String>,
    pub visible: bool,
    pub list_fields: Vec<String>,
}

/// Render payload decoded from the engine's UI output.
pub struct WizardPayload {
    pub form_title: String,
    pub help: Option<String>,
    pub status: RenderStatus,
    pub progress: RenderProgress,
    pub questions: Vec<WizardQuestion>,
}

impl WizardPayload {
    /// How many decoded questions are visible.
    pub fn visible_count(&self) -> (r: usize)
        ensures
            r == visible_count_at(self.questions@, self.questions@.len() as int),
    {
        let n = self.questions.len();
        let mut count: usize = 0;
        let mut i: usize = 0;
        while i < n
            invariant
                i <= n,
                n == self.questions@.len(),
                count == visible_count_at(self.questions@, i as int),
                count <= i,
            decreases n - i,
        {
            if self.questions[i].visible {
                count += 1;
            }
            i += 1;
        }
        count
    }

    /// The decoded question carrying this id, if any.
    pub fn question<'a>(&'a self, id: &str) -> (r: Option<&'a WizardQuestion>)
        ensures
            match r {
                Some(q) => {
                    exists|i: int|
                        0 <= i < self.questions@.len() && *q == self.questions@[i]
                            && (#[trigger] self.questions@[i]).id@ == id@
                },
                None => forall|i: int|
                    0 <= i < self.questions@.len() ==> (#[trigger] self.questions@[i]).id@ != id@,
            },
    {
        let n = self.questions.len();
        let mut i: usize = 0;
        while i < n
            invariant
                i <= n,
                n == self.questions@.len(),
                forall|j: int|
                    0 <= j < i ==> (#[trigger] self.questions@[j]).id@ != id@,
            decreases n - i,
        {
            if str_eq(self.questions[i].id.as_str(), id) {
                return Some(&self.questions[i]);
            }
            i += 1;
        }
        None
    }
}

/// The count of visible questions among the first `upto`.
pub open spec fn visible_count_at(qs: Seq<WizardQuestion>, upto: int) -> int
    decreases upto when 0 <= upto <= qs.len()
{
    if upto <= 0 {
        0
    } else {
        visible_count_at(qs, upto - 1) + if qs[upto - 1].visible {
            1int
        } else {
            0int
        }
    }
}

/// Context used to format a single prompt.
pub struct PromptContext {
    pub index: usize,
    pub total: usize,
    pub title: String,
    pub description: Option<String>,
    pub required: bool,
    pub hint: Option<String>,
    pub choices: Vec<String>,
    pub list_fields: Vec<String>,
}

impl PromptContext {
    /// Builds the prompt for one question: the one-based position, the
    /// total, and the question's own texts and hint.
    pub fn new(question: &WizardQuestion, progress: &RenderProgress) -> (r: PromptContext)
        ensures
            r.index == if progress.answered < usize::MAX {
                (progress.answered + 1) as usize
            } else {
                usize::MAX
            },
            r.index >= 1,
            r.total == progress.total,
            r.title@ == question.title@,
            (match (r.description, question.description) {
                (Some(a), Some(b)) => a@ == b@,
                (None, None) => true,
                _ => false,
            }),
            r.required == question.required,
            (match (r.hint, hint_view(question.kind, question.choices@)) {
                (Some(a), Some(b)) => a@ == b,
                (None, None) => true,
                _ => false,
            }),
            r.choices@.len() == question.choices@.len(),
            forall|i: int|
                0 <= i < r.choices@.len() ==> (#[trigger] r.choices@[i])@ == question.choices@[i]@,
            r.list_fields@.len() == question.list_fields@.len(),
            forall|i: int|
                0 <= i < r.list_fields@.len() ==> (#[trigger] r.list_fields@[i])@
                    == question.list_fields@[i]@,
    {
        let index = if progress.answered < usize::MAX {
            progress.answered + 1
        } else {
            usize::MAX
        };
        let index = if index < 1 {
            1
        } else {
            index
        };
        let hint = question.kind.hint(&question.choices);
        let description = match &question.description {
            Some(d) => Some(to_string(d.as_str())),
            None => None,
        };
        PromptContext {
            index,
            total: progress.total,
            title: to_string(question.title.as_str()),
            description,
            required: question.required,
            hint,
            choices: copy_strings(&question.choices),
            list_fields: copy_strings(&question.list_fields),
        }
    }
}

/// Copies a string vector, keeping every view.
fn copy_strings(v: &Vec<String>) -> (r: Vec<String>)
    ensures
        r@.len() == v@.len(),
        forall|i: int| 0 <= i < r@.len() ==> (#[trigger] r@[i])@ == v@[i]@,
{
    let mut out: Vec<String> = Vec::new();
    let n = v.len();
    let mut i: usize = 0;
    while i < n
        invariant
            i <= n,
            n == v@.len(),
            out@.len() == i,
            forall|j: int| 0 <= j < i ==> (#[trigger] out@[j])@ == v@[j]@,
        decreases n - i,
    {
        out.push(to_string(v[i].as_str()));
        i += 1;
    }
    out
}

/// Error produced when an answer cannot be parsed.
#[derive(Debug)]
pub struct AnswerParseError {
    pub user_message: String,
    pub debug_message: Option<String>,
}

impl AnswerParseError {
    /// Wraps a user-facing message and an optional expectation note.
    pub fn new(user_message: String, debug_message: Option<String>) -> (r: AnswerParseError)
        ensures
            r.user_message@ == user_message@,
            r.debug_message == debug_message,
    {
        AnswerParseError { user_message, debug_message }
    }
}

/// The pair of hex digits of one byte.
pub open spec fn hex_digit(d: int) -> char {
    if d == 0 { '0' }
    else if d == 1 { '1' }
    else if d == 2 { '2' }
    else if d == 3 { '3' }
    else if d == 4 { '4' }
    else if d == 5 { '5' }
    else if d == 6 { '6' }
    else if d == 7 { '7' }
    else if d == 8 { '8' }
    else if d == 9 { '9' }
    else if d == 10 { 'a' }
    else if d == 11 { 'b' }
    else if d == 12 { 'c' }
    else if d == 13 { 'd' }
    else if d == 14 { 'e' }
    else { 'f' }
}

/// The lower-case hex encoding of a byte sequence, two digits a byte.
pub open spec fn hex_of(bytes: Seq<u8>) -> Seq<char>
    decreases bytes.len(),
{
    if bytes.len() == 0 {
        Seq::empty()
    } else {
        hex_of(bytes.take(bytes.len() - 1)) + seq![
            hex_digit(bytes.last() as int / 16),
            hex_digit(bytes.last() as int % 16),
        ]
    }
}

/// Encodes bytes as lower-case hex, two digits a byte.
pub fn encode_hex(bytes: &Vec<u8>) -> (r: String)
    ensures
        r@ == hex_of(bytes@),
{
    let mut out = String::new();
    let n = bytes.len();
    let mut i: usize = 0;
    proof {
        assert(bytes@.take(0) =~= Seq::<u8>::empty());
    }
    while i < n
        invariant
            i <= n,
            n == bytes@.len(),
            out@ == hex_of(bytes@.take(i as int)),
        decreases n - i,
    {
        let b = bytes[i];
        let hi = hex_char(b / 16);
        let lo = hex_char(b % 16);
        push_char(&mut out, hi);
        push_char(&mut out, lo);
        proof {
            assert(bytes@.take(i + 1).take(i as int) =~= bytes@.take(i as int));
            assert(bytes@.take(i + 1).last() == bytes@[i as int]);
            assert(out@ =~= hex_of(bytes@.take(i + 1)));
        }
        i += 1;
    }
    proof {
        assert(bytes@.take(n as int) =~= bytes@);
    }
    out
}

fn hex_char(d: u8) -> (c: char)
    requires
        d < 16,
    ensures
        c == hex_digit(d as int),
{
    if d == 0 { '0' }
    else if d == 1 { '1' }
    else if d == 2 { '2' }
    else if d == 3 { '3' }
    else if d == 4 { '4' }
    else if d == 5 { '5' }
    else if d == 6 { '6' }
    else if d == 7 { '7' }
    else if d == 8 { '8' }
    else if d == 9 { '9' }
    else if d == 10 { 'a' }
    else if d == 11 { 'b' }
    else if d == 12 { 'c' }
    else if d == 13 { 'd' }
    else if d == 14 { 'e' }
    else { 'f' }
}

/// The string an optional JSON field holds, when it is a string.
pub open spec fn field_str(v: JsonView, key: Seq<char>) -> Option<Seq<char>> {
    match get_field(v, key) {
        Some(JsonView::Str(s)) => Some(s),
        _ => None,
    }
}

/// The boolean an optional JSON field holds, when it is one.
pub open spec fn field_bool(v: JsonView, key: Seq<char>) -> Option<bool> {
    match get_field(v, key) {
        Some(JsonView::Bool(b)) => Some(b),
        _ => None,
    }
}

/// The strings among a JSON array's items, in order.
pub open spec fn str_items(items: Seq<JsonView>, from: int) -> Seq<Seq<char>>
    decreases items.len() - from,
        when 0 <= from <= items.len()
{
    if from >= items.len() {
        Seq::empty()
    } else {
        (match items[from] {
            JsonView::Str(s) => seq![s],
            _ => Seq::empty(),
        }) + str_items(items, from + 1)
    }
}

/// The string `id` fields among a JSON array's items, in order.
pub open spec fn id_items(items: Seq<JsonView>, from: int) -> Seq<Seq<char>>
    decreases items.len() - from,
        when 0 <= from <= items.len()
{
    if from >= items.len() {
        Seq::empty()
    } else {
        (match field_str(items[from], "id"@) {
            Some(s) => seq![s],
            _ => Seq::empty(),
        }) + id_items(items, from + 1)
    }
}

/// Why one question item cannot be decoded, if it cannot.
pub open spec fn wq_error(item: JsonView) -> Option<Seq<char>> {
    if field_str(item, "id"@) is None {
        Some("question missing id"@)
    } else if field_str(item, "title"@) is None {
        Some(
            "question '"@ + (match field_str(item, "id"@) {
                Some(s) => s,
                None => Seq::empty(),
            }) + "' missing title"@,
        )
    } else {
        None
    }
}

/// What a decoded question must hold, given its JSON item.
pub open spec fn wq_matches(q: WizardQuestion, item: JsonView) -> bool {
    &&& wq_error(item) is None
    &&& Some(q.id@) == field_str(item, "id"@)
    &&& Some(q.title@) == field_str(item, "title"@)
    &&& (match (q.description, field_str(item, "description"@)) {
        (Some(a), Some(b)) => a@ == b,
        (None, None) => true,
        _ => false,
    })
    &&& q.required == (match field_bool(item, "required"@) {
        Some(b) => b,
        None => false,
    })
    &&& q.kind == kind_of_label(
        match field_str(item, "type"@) {
            Some(s) => s,
            None => "string"@,
        },
    )
    &&& crate::pointer::strs_view(q.choices@) == (match get_field(item, "choices"@) {
        Some(JsonView::Arr(items)) => str_items(items, 0),
        _ => Seq::empty(),
    })
    &&& q.visible == (match field_bool(item, "visible"@) {
        Some(b) => b,
        None => true,
    })
    &&& crate::pointer::strs_view(q.list_fields@) == (match get_field(item, "list"@) {
        Some(l) => match get_field(l, "fields"@) {
            Some(JsonView::Arr(items)) => id_items(items, 0),
            _ => Seq::empty(),
        },
        _ => Seq::empty(),
    })
}

/// Reads a string field as an owned copy.
fn read_str_field(v: &JsonValue, key: &str) -> (r: Option<String>)
    ensures
        match r {
            Some(s) => field_str(v@, key@) == Some(s@),
            None => field_str(v@, key@) is None,
        },
{
    match v.get(key) {
        Some(f) => match f.as_str() {
            Some(s) => Some(to_string(s)),
            None => None,
        },
        None => None,
    }
}

/// Reads a boolean field.
fn read_bool_field(v: &JsonValue, key: &str) -> (r: Option<bool>)
    ensures
        r == field_bool(v@, key@),
{
    match v.get(key) {
        Some(f) => f.as_bool(),
        None => None,
    }
}

/// Collects the strings among an array's items.
fn collect_str_items(items: &Vec<JsonValue>) -> (r: Vec<String>)
    ensures
        crate::pointer::strs_view(r@) == str_items(jview_arr(items@), 0),
{
    proof {
        crate::json::lemma_jview_arr(items@);
    }
    let mut out: Vec<String> = Vec::new();
    let n = items.len();
    let mut i: usize = 0;
    proof {
        assert(crate::pointer::strs_view(out@) =~= Seq::<Seq<char>>::empty());
    }
    while i < n
        invariant
            i <= n,
            n == items@.len(),
            jview_arr(items@).len() == n,
            forall|j: int|
                0 <= j < items@.len() ==> #[trigger] jview_arr(items@)[j] == jview(items@[j]),
            crate::pointer::strs_view(out@) + str_items(jview_arr(items@), i as int) == str_items(
                jview_arr(items@),
                0,
            ),
        decreases n - i,
    {
        let ghost prev = out@;
        match items[i].as_str() {
            Some(s) => {
                out.push(to_string(s));
                proof {
                    assert(crate::pointer::strs_view(out@) =~= crate::pointer::strs_view(
                        prev,
                    ).push(jview_arr(items@)[i as int]->Str_0));
                }
            },
            None => {},
        }
        proof {
            assert(crate::pointer::strs_view(out@) + str_items(jview_arr(items@), i + 1)
                =~= crate::pointer::strs_view(prev) + str_items(jview_arr(items@), i as int));
        }
        i += 1;
    }
    proof {
        assert(str_items(jview_arr(items@), n as int) =~= Seq::<Seq<char>>::empty());
        assert(crate::pointer::strs_view(out@) =~= str_items(jview_arr(items@), 0));
    }
    out
}

/// Collects the `id` fields among an array's items.
fn collect_id_items(items: &Vec<JsonValue>) -> (r: Vec<String>)
    ensures
        crate::pointer::strs_view(r@) == id_items(jview_arr(items@), 0),
{
    proof {
        crate::json::lemma_jview_arr(items@);
    }
    let mut out: Vec<String> = Vec::new();
    let n = items.len();
    let mut i: usize = 0;
    proof {
        assert(crate::pointer::strs_view(out@) =~= Seq::<Seq<char>>::empty());
    }
    while i < n
        invariant
            i <= n,
            n == items@.len(),
            jview_arr(items@).len() == n,
            forall|j: int|
                0 <= j < items@.len() ==> #[trigger] jview_arr(items@)[j] == jview(items@[j]),
            crate::pointer::strs_view(out@) + id_items(jview_arr(items@), i as int) == id_items(
                jview_arr(items@),
                0,
            ),
        decreases n - i,
    {
        let ghost prev = out@;
        match read_str_field(&items[i], "id") {
            Some(s) => {
                let ghost sv = s@;
                out.push(s);
                proof {
                    assert(crate::pointer::strs_view(out@) =~= crate::pointer::strs_view(
                        prev,
                    ).push(sv));
                }
            },
            None => {},
        }
        proof {
            assert(crate::pointer::strs_view(out@) + id_items(jview_arr(items@), i + 1)
                =~= crate::pointer::strs_view(prev) + id_items(jview_arr(items@), i as int));
        }
        i += 1;
    }
    proof {
        assert(id_items(jview_arr(items@), n as int) =~= Seq::<Seq<char>>::empty());
        assert(crate::pointer::strs_view(out@) =~= id_items(jview_arr(items@), 0));
    }
    out
}

impl WizardQuestion {
    /// Decodes one question item; the error says which field is absent.
    pub fn from_json(v: &JsonValue) -> (r: Result<WizardQuestion, String>)
        ensures
            match r {
                Ok(q) => wq_matches(q, v@),
                Err(msg) => wq_error(v@) == Some(msg@),
            },
    {
        let id = match read_str_field(v, "id") {
            Some(s) => s,
            None => {
                return Err(to_string("question missing id"));
            },
        };
        let title = match read_str_field(v, "title") {
            Some(s) => s,
            None => {
                let mut msg = to_string("question '");
                push_str(&mut msg, id.as_str());
                push_str(&mut msg, "' missing title");
                proof {
                    assert(msg@ =~= "question '"@ + id@ + "' missing title"@);
                }
                return Err(msg);
            },
        };
        let description = read_str_field(v, "description");
        let required = match read_bool_field(v, "required") {
            Some(b) => b,
            None => false,
        };
        let kind = match read_str_field(v, "type") {
            Some(label) => QuestionKind::from_label(label.as_str()),
            None => QuestionKind::from_label("string"),
        };
        proof {
            reveal_strlit("string");
        }
        let choices = match v.get("choices") {
            Some(c) => match c.as_array() {
                Some(items) => collect_str_items(items),
                None => Vec::new(),
            },
            None => Vec::new(),
        };
        let list_fields = match v.get("list") {
            Some(l) => match l.get("fields") {
                Some(f) => match f.as_array() {
                    Some(items) => collect_id_items(items),
                    None => Vec::new(),
                },
                None => Vec::new(),
            },
            None => Vec::new(),
        };
        let visible = match read_bool_field(v, "visible") {
            Some(b) => b,
            None => true,
        };
        proof {
            assert(crate::pointer::strs_view(Seq::<String>::empty()) =~= Seq::<Seq<char>>::empty());
        }
        Ok(WizardQuestion { id, title, description, kind, required, choices, visible, list_fields })
    }
}

/// The first undecodable question item, if any.
pub open spec fn first_bad_item(items: Seq<JsonView>, from: int) -> Option<int>
    decreases items.len() - from,
        when 0 <= from <= items.len()
{
    if from >= items.len() {
        None
    } else if wq_error(items[from]) is Some {
        Some(from)
    } else {
        first_bad_item(items, from + 1)
    }
}

/// Why a payload cannot be decoded, if it cannot.
pub open spec fn payload_error(v: JsonView) -> Option<Seq<char>> {
    if field_str(v, "form_title"@) is None {
        Some("wizard payload missing form_title"@)
    } else if !(match get_field(v, "progress"@) {
        Some(p) => p is Obj,
        None => false,
    }) {
        Some("wizard payload missing progress"@)
    } else if !(match get_field(v, "questions"@) {
        Some(q) => q is Arr,
        None => false,
    }) {
        Some("wizard payload missing questions"@)
    } else {
        match get_field(v, "questions"@) {
            Some(JsonView::Arr(items)) => match first_bad_item(items, 0) {
                Some(i) => wq_error(items[i]),
                None => None,
            },
            _ => None,
        }
    }
}

/// A non-negative integer field clamped into a machine word; anything
/// else counts as zero.
pub open spec fn count_field(v: JsonView, key: Seq<char>) -> nat {
    match get_field(v, key) {
        Some(JsonView::Int(i)) => if i >= 0 {
            if i <= usize::MAX {
                i as nat
            } else {
                usize::MAX as nat
            }
        } else {
            0
        },
        _ => 0,
    }
}

/// Reads a count field, clamped into a machine word.
fn read_count_field(v: &JsonValue, key: &str) -> (r: usize)
    ensures
        r as nat == count_field(v@, key@),
{
    match v.get(key) {
        Some(f) => match f.as_int() {
            Some(i) => {
                if i < 0 {
                    0
                } else if (i as u128) > (usize::MAX as u128) {
                    usize::MAX
                } else {
                    i as usize
                }
            },
            None => 0,
        },
        None => 0,
    }
}

impl WizardPayload {
    /// Decodes the engine's JSON-UI output; the error names the missing
    /// piece.
    pub fn from_json(v: &JsonValue) -> (r: Result<WizardPayload, String>)
        ensures
            match r {
                Ok(p) => {
                    &&& payload_error(v@) is None
                    &&& Some(p.form_title@) == field_str(v@, "form_title"@)
                    &&& (match (p.help, field_str(v@, "help"@)) {
                        (Some(a), Some(b)) => a@ == b,
                        (None, None) => true,
                        _ => false,
                    })
                    &&& p.status == status_of_label(
                        match field_str(v@, "status"@) {
                            Some(s) => s,
                            None => "need_input"@,
                        },
                    )
                    &&& p.progress.answered as nat == (match get_field(v@, "progress"@) {
                        Some(prog) => count_field(prog, "answered"@),
                        None => 0,
                    })
                    &&& p.progress.total as nat == (match get_field(v@, "progress"@) {
                        Some(prog) => count_field(prog, "total"@),
                        None => 0,
                    })
                    &&& (match get_field(v@, "questions"@) {
                        Some(JsonView::Arr(items)) => p.questions@.len() == items.len() && forall|
                            i: int,
                        |
                            0 <= i < items.len() ==> wq_matches(
                                #[trigger] p.questions@[i],
                                items[i],
                            ),
                        _ => false,
                    })
                },
                Err(msg) => payload_error(v@) == Some(msg@),
            },
    {
        let form_title = match read_str_field(v, "form_title") {
            Some(s) => s,
            None => {
                return Err(to_string("wizard payload missing form_title"));
            },
        };
        let help = read_str_field(v, "help");
        let status = match read_str_field(v, "status") {
            Some(s) => RenderStatus::from_label(s.as_str()),
            None => {
                proof {
                    reveal_strlit("need_input");
                }
                RenderStatus::from_label("need_input")
            },
        };
        let progress = match v.get("progress") {
            Some(p) => {
                match p.as_object() {
                    Some(_) => {
                        let answered = read_count_field(p, "answered");
                        let total = read_count_field(p, "total");
                        RenderProgress { answered, total }
                    },
                    None => {
                        return Err(to_string("wizard payload missing progress"));
                    },
                }
            },
            None => {
                return Err(to_string("wizard payload missing progress"));
            },
        };
        let items = match v.get("questions") {
            Some(q) => match q.as_array() {
                Some(items) => items,
                None => {
                    return Err(to_string("wizard payload missing questions"));
                },
            },
            None => {
                return Err(to_string("wizard payload missing questions"));
            },
        };
        proof {
            crate::json::lemma_jview_arr(items@);
        }
        let mut questions: Vec<WizardQuestion> = Vec::new();
        let n = items.len();
        let mut i: usize = 0;
        while i < n
            invariant
                i <= n,
                n == items@.len(),
                jview_arr(items@).len() == n,
                forall|j: int|
                    0 <= j < items@.len() ==> #[trigger] jview_arr(items@)[j] == jview(
                        items@[j],
                    ),
                questions@.len() == i,
                forall|j: int|
                    0 <= j < i ==> wq_matches(#[trigger] questions@[j], jview_arr(items@)[j]),
                first_bad_item(jview_arr(items@), 0) == first_bad_item(
                    jview_arr(items@),
                    i as int,
                ),
                get_field(v@, "questions"@) == Some(JsonView::Arr(jview_arr(items@))),
                field_str(v@, "form_title"@) is Some,
                (match get_field(v@, "progress"@) {
                    Some(p) => p is Obj,
                    None => false,
                }),
            decreases n - i,
        {
            match WizardQuestion::from_json(&items[i]) {
                Ok(q) => {
                    questions.push(q);
                },
                Err(msg) => {
                    proof {
                        assert(wq_error(jview_arr(items@)[i as int]) == Some(msg@));
                        assert(first_bad_item(jview_arr(items@), i as int) == Some(i as int));
                        assert(payload_error(v@) == Some(msg@));
                    }
                    return Err(msg);
                },
            }
            i += 1;
        }
        proof {
            assert(first_bad_item(jview_arr(items@), n as int) is None);
        }
        Ok(WizardPayload { form_title, help, status, progress, questions })
    }
}

/// Whether a character is ASCII whitespace.
pub open spec fn is_ws(c: char) -> bool {
    c == ' ' || c == '\t' || c == '\n' || c == '\r'
}

/// The sequence without leading whitespace.
pub open spec fn trim_front(s: Seq<char>) -> Seq<char>
    decreases s.len(),
{
    if s.len() > 0 && is_ws(s[0]) {
        trim_front(s.skip(1))
    } else {
        s
    }
}

/// The sequence without trailing whitespace.
pub open spec fn trim_back(s: Seq<char>) -> Seq<char>
    decreases s.len(),
{
    if s.len() > 0 && is_ws(s.last()) {
        trim_back(s.take(s.len() - 1))
    } else {
        s
    }
}

/// The sequence without surrounding whitespace.
pub open spec fn trim_view(s: Seq<char>) -> Seq<char> {
    trim_back(trim_front(s))
}

/// Trims ASCII whitespace from both ends.
pub fn trim_exec(s: &str) -> (r: String)
    ensures
        r@ == trim_view(s@),
{
    let n = s.unicode_len();
    let mut start: usize = 0;
    let mut scanning = true;
    proof {
        assert(s@.skip(0) =~= s@);
    }
    while start < n && scanning
        invariant
            start <= n,
            n == s@.len(),
            trim_front(s@) == trim_front(s@.skip(start as int)),
            !scanning ==> start < n && !is_ws(s@[start as int]),
        decreases n - start, (if scanning { 1int } else { 0int }),
    {
        let c = s.get_char(start);
        if c == ' ' || c == '\t' || c == '\n' || c == '\r' {
            proof {
                assert(s@.skip(start as int)[0] == c);
                assert(s@.skip(start as int).skip(1) =~= s@.skip(start + 1));
            }
            start += 1;
        } else {
            scanning = false;
        }
    }
    proof {
        if start == n {
            assert(s@.skip(n as int) =~= Seq::<char>::empty());
        } else {
            assert(s@.skip(start as int)[0] == s@[start as int]);
        }
    }
    let ghost fronted = trim_front(s@);
    let mut end: usize = n;
    let mut back_scanning = true;
    proof {
        assert(fronted == s@.skip(start as int));
        assert(fronted.len() == n - start);
        assert(trim_back(fronted) == trim_back(fronted.take((end - start) as int))) by {
            assert(fronted.take((end - start) as int) =~= fronted);
        }
    }
    while end > start && back_scanning
        invariant
            start <= end <= n,
            n == s@.len(),
            fronted == trim_front(s@),
            fronted == s@.skip(start as int),
            fronted.len() == n - start,
            forall|j: int| 0 <= j < fronted.len() ==> #[trigger] fronted[j] == s@[j + start],
            trim_back(fronted) == trim_back(fronted.take((end - start) as int)),
            !back_scanning ==> end > start && !is_ws(fronted[(end - 1 - start) as int]),
        decreases end, (if back_scanning { 1int } else { 0int }),
    {
        let c = s.get_char(end - 1);
        if c == ' ' || c == '\t' || c == '\n' || c == '\r' {
            proof {
                let cur = fronted.take((end - start) as int);
                assert(cur.last() == c);
                assert(cur.take(cur.len() - 1) =~= fronted.take((end - 1 - start) as int));
            }
            end -= 1;
        } else {
            proof {
                assert(fronted[(end - 1 - start) as int] == c);
            }
            back_scanning = false;
        }
    }
    let mut out = String::new();
    let mut i: usize = start;
    proof {
        if end == start {
            assert(fronted.take(0) =~= Seq::<char>::empty());
        }
        assert(out@ =~= fronted.take((i - start) as int));
    }
    while i < end
        invariant
            start <= i <= end <= n,
            n == s@.len(),
            fronted == s@.skip(start as int),
            fronted.len() == n - start,
            forall|j: int| 0 <= j < fronted.len() ==> #[trigger] fronted[j] == s@[j + start],
            out@ == fronted.take((i - start) as int),
        decreases end - i,
    {
        let c = s.get_char(i);
        push_char(&mut out, c);
        proof {
            assert(out@ =~= fronted.take((i + 1 - start) as int));
        }
        i += 1;
    }
    proof {
        assert(out@ == fronted.take((end - start) as int));
        assert(trim_back(fronted.take((end - start) as int)) == fronted.take(
            (end - start) as int,
        )) by {
            let cur = fronted.take((end - start) as int);
            if cur.len() > 0 && is_ws(cur.last()) {
                assert(cur.last() == fronted[(end - 1 - start) as int]);
            }
        }
        assert(out@ == trim_view(s@));
    }
    out
}

/// Whether the lowered text spells a false boolean.
pub open spec fn falsy_default(s: Seq<char>) -> bool {
    ||| ascii_lower(s) == "false"@
    ||| ascii_lower(s) == "f"@
    ||| ascii_lower(s) == "no"@
    ||| ascii_lower(s) == "n"@
    ||| ascii_lower(s) == "0"@
}

/// The parsed boolean of an answer: truthy and falsy spellings, else
/// nothing.
pub open spec fn bool_answer(s: Seq<char>) -> Option<bool> {
    if crate::schema::truthy_default(s) {
        Some(true)
    } else if falsy_default(s) {
        Some(false)
    } else {
        None
    }
}

/// Parses a boolean answer from its usual spellings.
pub fn parse_boolean(raw: &str) -> (r: Result<JsonValue, AnswerParseError>)
    ensures
        match r {
            Ok(v) => bool_answer(raw@) matches Some(b) && v@ == JsonView::Bool(b),
            Err(e) => bool_answer(raw@) is None && e.user_message@ == "Please enter yes or no."@
                && (match e.debug_message {
                Some(d) => d@ == "expected boolean (y/n/true/false)"@,
                None => false,
            }),
        },
{
    proof {
        reveal_strlit("true");
        reveal_strlit("t");
        reveal_strlit("yes");
        reveal_strlit("y");
        reveal_strlit("1");
        reveal_strlit("false");
        reveal_strlit("f");
        reveal_strlit("no");
        reveal_strlit("n");
        reveal_strlit("0");
        lemma_lower_fixed("true"@);
        lemma_lower_fixed("t"@);
        lemma_lower_fixed("yes"@);
        lemma_lower_fixed("y"@);
        lemma_lower_fixed("1"@);
        lemma_lower_fixed("false"@);
        lemma_lower_fixed("f"@);
        lemma_lower_fixed("no"@);
        lemma_lower_fixed("n"@);
        lemma_lower_fixed("0"@);
    }
    if eq_ignore_ascii_case(raw, "true") || eq_ignore_ascii_case(raw, "t") || eq_ignore_ascii_case(
        raw,
        "yes",
    ) || eq_ignore_ascii_case(raw, "y") || eq_ignore_ascii_case(raw, "1") {
        Ok(JsonValue::Bool(true))
    } else if eq_ignore_ascii_case(raw, "false") || eq_ignore_ascii_case(raw, "f")
        || eq_ignore_ascii_case(raw, "no") || eq_ignore_ascii_case(raw, "n")
        || eq_ignore_ascii_case(raw, "0") {
        Ok(JsonValue::Bool(false))
    } else {
        Err(
            AnswerParseError {
                user_message: to_string("Please enter yes or no."),
                debug_message: Some(to_string("expected boolean (y/n/true/false)")),
            },
        )
    }
}

/// A string free of upper-case ASCII stays fixed under lowercasing.
proof fn lemma_lower_fixed(s: Seq<char>)
    requires
        forall|j: int| 0 <= j < s.len() ==> !('A' <= #[trigger] s[j] <= 'Z'),
    ensures
        ascii_lower(s) == s,
{
    assert(ascii_lower(s) =~= s);
}

/// Parses an integer answer.
pub fn parse_integer(raw: &str) -> (r: Result<JsonValue, AnswerParseError>)
    ensures
        match r {
            Ok(v) => parse_i64_spec(raw@) matches Some(i) && v@ == JsonView::Int(i),
            Err(e) => parse_i64_spec(raw@) is None && e.user_message@
                == "Please enter a whole number."@ && (match e.debug_message {
                Some(d) => d@ == "expected integer"@,
                None => false,
            }),
        },
{
    match parse_i64(raw) {
        Some(i) => Ok(JsonValue::Int(i)),
        None => Err(
            AnswerParseError {
                user_message: to_string("Please enter a whole number."),
                debug_message: Some(to_string("expected integer")),
            },
        ),
    }
}

/// The first choice equal to the answer up to ASCII case, if any.
pub open spec fn matching_choice(choices: Seq<Seq<char>>, raw: Seq<char>, from: int) -> Option<int>
    decreases choices.len() - from,
        when 0 <= from <= choices.len()
{
    if from >= choices.len() {
        None
    } else if ascii_lower(choices[from]) == ascii_lower(raw) {
        Some(from)
    } else {
        matching_choice(choices, raw, from + 1)
    }
}

/// Parses an enum answer: the matching choice's own spelling wins.
pub fn parse_enum(question: &JsonValue, raw: &str) -> (r: Result<JsonValue, AnswerParseError>)
    ensures
        match r {
            Ok(v) => (match get_field(question@, "choices"@) {
                Some(JsonView::Arr(items)) => {
                    match matching_choice(str_items(items, 0), raw@, 0) {
                        Some(i) => v@ == JsonView::Str(str_items(items, 0)[i]),
                        None => false,
                    }
                },
                _ => false,
            }),
            Err(e) => (match get_field(question@, "choices"@) {
                Some(JsonView::Arr(items)) => matching_choice(str_items(items, 0), raw@, 0)
                    is None,
                _ => e.user_message@ == "Choices are not defined for this question."@,
            }),
        },
{
    let items = match question.get("choices") {
        Some(c) => match c.as_array() {
            Some(items) => items,
            None => {
                return Err(
                    AnswerParseError {
                        user_message: to_string("Choices are not defined for this question."),
                        debug_message: None,
                    },
                );
            },
        },
        None => {
            return Err(
                AnswerParseError {
                    user_message: to_string("Choices are not defined for this question."),
                    debug_message: None,
                },
            );
        },
    };
    let allowed = collect_str_items(items);
    let ghost cs = str_items(jview_arr(items@), 0);
    let n = allowed.len();
    let mut i: usize = 0;
    proof {
        assert(crate::pointer::strs_view(allowed@).len() == cs.len());
    }
    while i < n
        invariant
            i <= n,
            n == allowed@.len(),
            cs == crate::pointer::strs_view(allowed@),
            cs == str_items(jview_arr(items@), 0),
            get_field(question@, "choices"@) == Some(JsonView::Arr(jview_arr(items@))),
            cs.len() == n,
            matching_choice(cs, raw@, 0) == matching_choice(cs, raw@, i as int),
        decreases n - i,
    {
        if eq_ignore_ascii_case(allowed[i].as_str(), raw) {
            let v = JsonValue::Str(to_string(allowed[i].as_str()));
            proof {
                assert(cs[i as int] == allowed@[i as int]@);
                assert(matching_choice(cs, raw@, i as int) == Some(i as int));
                assert(matching_choice(cs, raw@, 0) == Some(i as int));
                assert(v@ == JsonView::Str(cs[i as int]));
            }
            return Ok(v);
        }
        proof {
            assert(cs[i as int] == allowed@[i as int]@);
        }
        i += 1;
    }
    Err(
        AnswerParseError {
            user_message: to_string("That answer is not one of the choices."),
            debug_message: Some(to_string("expected one of the listed choices")),
        },
    )
}

/// The effective answer text: the raw input, or the question's default
/// when the input is empty, both trimmed.
pub open spec fn prompt_value(question: JsonView, raw: Seq<char>) -> Seq<char> {
    if raw.len() == 0 {
        trim_view(
            match field_str(question, "default"@) {
                Some(d) => d,
                None => Seq::empty(),
            },
        )
    } else {
        trim_view(raw)
    }
}

/// Whether the question demands an answer; unmarked questions do.
pub open spec fn question_required(question: JsonView) -> bool {
    match field_bool(question, "required"@) {
        Some(b) => b,
        None => true,
    }
}

/// The question's type label; unmarked questions hold strings.
pub open spec fn question_type_of(question: JsonView) -> Seq<char> {
    match field_str(question, "type"@) {
        Some(t) => t,
        None => "string"@,
    }
}

/// Parses one typed answer from the shell's input line: the default
/// fills an empty line, an empty optional answer becomes null, and the
/// question's type decides the reading.  Number and list answers are
/// parsed by the shell itself — through its floating-point and JSON
/// readers — so here they report an error.
pub fn parse_answer(question: &JsonValue, raw: &str) -> (r: Result<JsonValue, AnswerParseError>)
    ensures
        ({
            let pv = prompt_value(question@, raw@);
            let kind = question_type_of(question@);
            if pv.len() == 0 {
                match r {
                    Ok(v) => !question_required(question@) && v@ == JsonView::Null,
                    Err(e) => question_required(question@) && e.user_message@
                        == "This question requires an answer."@,
                }
            } else if kind == "boolean"@ {
                match r {
                    Ok(v) => bool_answer(pv) matches Some(b) && v@ == JsonView::Bool(b),
                    Err(_) => bool_answer(pv) is None,
                }
            } else if kind == "integer"@ {
                match r {
                    Ok(v) => parse_i64_spec(pv) matches Some(i) && v@ == JsonView::Int(i),
                    Err(_) => parse_i64_spec(pv) is None,
                }
            } else if kind == "enum"@ {
                match r {
                    Ok(v) => (match get_field(question@, "choices"@) {
                        Some(JsonView::Arr(items)) => {
                            match matching_choice(str_items(items, 0), pv, 0) {
                                Some(i) => v@ == JsonView::Str(str_items(items, 0)[i]),
                                None => false,
                            }
                        },
                        _ => false,
                    }),
                    Err(_) => (match get_field(question@, "choices"@) {
                        Some(JsonView::Arr(items)) => matching_choice(str_items(items, 0), pv, 0)
                            is None,
                        _ => true,
                    }),
                }
            } else if kind == "number"@ || kind == "list"@ {
                r is Err
            } else {
                match r {
                    Ok(v) => v@ == JsonView::Str(pv),
                    Err(_) => false,
                }
            }
        }),
{
    let n = raw.unicode_len();
    let pv = if n == 0 {
        match read_str_field(question, "default") {
            Some(d) => trim_exec(d.as_str()),
            None => {
                proof {
                    assert(trim_front(Seq::<char>::empty()) =~= Seq::<char>::empty());
                    assert(trim_back(Seq::<char>::empty()) =~= Seq::<char>::empty());
                }
                String::new()
            },
        }
    } else {
        trim_exec(raw)
    };
    if pv.as_str().unicode_len() == 0 {
        let required = match read_bool_field(question, "required") {
            Some(b) => b,
            None => true,
        };
        if !required {
            return Ok(JsonValue::Null);
        }
        return Err(
            AnswerParseError {
                user_message: to_string("This question requires an answer."),
                debug_message: None,
            },
        );
    }
    let kind = match read_str_field(question, "type") {
        Some(t) => t,
        None => to_string("string"),
    };
    if str_eq(kind.as_str(), "boolean") {
        parse_boolean(pv.as_str())
    } else if str_eq(kind.as_str(), "integer") {
        parse_integer(pv.as_str())
    } else if str_eq(kind.as_str(), "enum") {
        parse_enum(question, pv.as_str())
    } else if str_eq(kind.as_str(), "number") {
        Err(
            AnswerParseError {
                user_message: to_string("Number answers are read by the shell."),
                debug_message: Some(to_string("expected number")),
            },
        )
    } else if str_eq(kind.as_str(), "list") {
        Err(
            AnswerParseError {
                user_message: to_string("List answers are read by the shell."),
                debug_message: Some(to_string("expected a JSON array")),
            },
        )
    } else {
        Ok(JsonValue::Str(pv))
    }
}

/// Validation feedback extracted from a submission response.
pub struct ValidationDetails {
    pub errors: Vec<(String, String)>,
    pub missing_required: Vec<String>,
    pub unknown_fields: Vec<String>,
}

/// The path and message of one reported error item, with fallbacks for
/// items that carry neither.
pub open spec fn err_pair(item: JsonView) -> (Seq<char>, Seq<char>) {
    (
        match field_str(item, "path"@) {
            Some(p) => p,
            None => "<unknown>"@,
        },
        match field_str(item, "message"@) {
            Some(m) => m,
            None => "validation failed"@,
        },
    )
}

/// The pairs of an error array, in order.
pub open spec fn err_pairs(items: Seq<JsonView>) -> Seq<(Seq<char>, Seq<char>)> {
    Seq::new(items.len(), |i: int| err_pair(items[i]))
}

/// The views of a vector of string pairs.
pub open spec fn pairs_view(v: Seq<(String, String)>) -> Seq<(Seq<char>, Seq<char>)> {
    Seq::new(v.len(), |i: int| (v[i].0@, v[i].1@))
}

/// The string array under a key of the response's validation object.
pub open spec fn vd_names(response: JsonView, key: Seq<char>) -> Seq<Seq<char>> {
    match get_field(response, "validation"@) {
        Some(v) => match get_field(v, key) {
            Some(JsonView::Arr(items)) => str_items(items, 0),
            _ => Seq::empty(),
        },
        None => Seq::empty(),
    }
}

/// The error pairs of the response's validation object.
pub open spec fn vd_errors(response: JsonView) -> Seq<(Seq<char>, Seq<char>)> {
    match get_field(response, "validation"@) {
        Some(v) => match get_field(v, "errors"@) {
            Some(JsonView::Arr(items)) => err_pairs(items),
            _ => Seq::empty(),
        },
        None => Seq::empty(),
    }
}

/// Collects the validation feedback out of one submission response:
/// each error's path and message, the missing required ids and the
/// unknown field names, with absent pieces read as empty.
pub fn gather_validation_details(response: &JsonValue) -> (r: ValidationDetails)
    ensures
        pairs_view(r.errors@) == vd_errors(response@),
        crate::pointer::strs_view(r.missing_required@) == vd_names(
            response@,
            "missing_required"@,
        ),
        crate::pointer::strs_view(r.unknown_fields@) == vd_names(response@, "unknown_fields"@),
{
    let mut errors: Vec<(String, String)> = Vec::new();
    let mut missing: Vec<String> = Vec::new();
    let mut unknown: Vec<String> = Vec::new();
    proof {
        assert(pairs_view(errors@) =~= Seq::<(Seq<char>, Seq<char>)>::empty());
        assert(crate::pointer::strs_view(missing@) =~= Seq::<Seq<char>>::empty());
        assert(crate::pointer::strs_view(unknown@) =~= Seq::<Seq<char>>::empty());
    }
    match response.get("validation") {
        Some(validation) => {
            match validation.get("errors") {
                Some(list) => {
                    match list.as_array() {
                        Some(items) => {
                            proof {
                                crate::json::lemma_jview_arr(items@);
                            }
                            let n = items.len();
                            let mut i: usize = 0;
                            while i < n
                                invariant
                                    i <= n,
                                    n == items@.len(),
                                    jview_arr(items@).len() == n,
                                    forall|j: int|
                                        0 <= j < items@.len() ==> #[trigger] jview_arr(items@)[j]
                                            == jview(items@[j]),
                                    pairs_view(errors@) =~= err_pairs(jview_arr(items@)).take(
                                        i as int,
                                    ),
                                decreases n - i,
                            {
                                let path = match read_str_field(&items[i], "path") {
                                    Some(p) => p,
                                    None => to_string("<unknown>"),
                                };
                                let message = match read_str_field(&items[i], "message") {
                                    Some(m) => m,
                                    None => to_string("validation failed"),
                                };
                                let ghost prev = errors@;
                                errors.push((path, message));
                                proof {
                                    assert(pairs_view(errors@) =~= pairs_view(prev).push(
                                        err_pair(jview_arr(items@)[i as int]),
                                    ));
                                    assert(pairs_view(errors@) =~= err_pairs(
                                        jview_arr(items@),
                                    ).take(i + 1));
                                }
                                i += 1;
                            }
                            proof {
                                assert(err_pairs(jview_arr(items@)).take(n as int) =~= err_pairs(
                                    jview_arr(items@),
                                ));
                            }
                        },
                        None => {},
                    }
                },
                None => {},
            }
            match validation.get("missing_required") {
                Some(list) => {
                    match list.as_array() {
                        Some(items) => {
                            let collected = collect_str_items(items);
                            missing = collected;
                        },
                        None => {},
                    }
                },
                None => {},
            }
            match validation.get("unknown_fields") {
                Some(list) => {
                    match list.as_array() {
                        Some(items) => {
                            let collected = collect_str_items(items);
                            unknown = collected;
                        },
                        None => {},
                    }
                },
                None => {},
            }
        },
        None => {},
    }
    ValidationDetails { errors, missing_required: missing, unknown_fields: unknown }
}

} // verus!
