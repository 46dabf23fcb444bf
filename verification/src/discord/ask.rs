//! The HITL `ask` lifecycle: validating a question, the `custom_id`
//! convention its buttons carry, and how a stored ask is reported.

use vstd::prelude::*;
use vstd::string::*;
use crate::discord::api::SendRequest;
use crate::discord::error::{plain_error, AppError, ErrorKind};
use crate::text::{all_digits, decimal, digits_value, is_digit, lex_lt, parse_unsigned, parse_usize, str_eq, str_lt, trim, trimmed, u64_to_decimal};

verus! {

/// Action rows hold at most 5 buttons; one is kept for the free-text
/// button, so an ask offers 1 to 4 choices.
pub const MIN_OPTIONS: usize = 1;
pub const MAX_OPTIONS: usize = 4;

/// `ask create`'s inputs.
#[derive(Debug, Clone, PartialEq, Eq)]
pub struct AskCreateRequest {
    pub channel_id: String,
    pub question: String,
    pub options: Vec<String>,
    pub allow_text: bool,
    pub timeout_secs: u64,
}

/// Whether `s` is empty once whitespace is trimmed.
pub open spec fn blank(s: Seq<char>) -> bool {
    trimmed(s).len() == 0
}

/// What validating an ask answers, checked in this order: a blank question,
/// a choice count outside `1..=4`, a blank choice label, a zero timeout.
pub open spec fn ask_verdict(req: AskCreateRequest, r: Result<(), AppError>) -> bool {
    if blank(req.question@) {
        r matches Err(e) && plain_error(ErrorKind::Usage, "question must not be empty"@, e)
    } else if !(MIN_OPTIONS <= req.options@.len() <= MAX_OPTIONS) {
        r matches Err(e) && plain_error(
            ErrorKind::Usage,
            "--option must be given 1..=4 times (got "@ + decimal(req.options@.len()) + ")"@,
            e,
        )
    } else if exists|i: int| 0 <= i < req.options@.len() && blank(#[trigger] req.options@[i]@) {
        r matches Err(e) && plain_error(ErrorKind::Usage, "--option labels must not be empty"@, e)
    } else if req.timeout_secs == 0 {
        r matches Err(e) && plain_error(ErrorKind::Usage, "--timeout must be greater than 0"@, e)
    } else {
        r is Ok
    }
}

pub fn validate_ask_create(req: &AskCreateRequest) -> (r: Result<(), AppError>)
    ensures
        ask_verdict(*req, r),
{
    if trim(req.question.as_str()).as_str().unicode_len() == 0 {
        return Err(AppError::new(ErrorKind::Usage, "question must not be empty"));
    }
    let count = req.options.len();
    if !(MIN_OPTIONS <= count && count <= MAX_OPTIONS) {
        let mut message = String::new();
        message.append("--option must be given 1..=4 times (got ");
        message.append(u64_to_decimal(count as u64).as_str());
        message.append(")");
        return Err(AppError::with_message(ErrorKind::Usage, message));
    }
    let mut i: usize = 0;
    while i < count
        invariant
            count == req.options@.len(),
            MIN_OPTIONS <= count <= MAX_OPTIONS,
            !blank(req.question@),
            i <= count,
            forall|t: int| 0 <= t < i ==> !blank(#[trigger] req.options@[t]@),
        decreases count - i,
    {
        if trim(req.options[i].as_str()).as_str().unicode_len() == 0 {
            assert(blank(req.options@[i as int]@));
            return Err(AppError::new(ErrorKind::Usage, "--option labels must not be empty"));
        }
        i = i + 1;
    }
    if req.timeout_secs == 0 {
        return Err(AppError::new(ErrorKind::Usage, "--timeout must be greater than 0"));
    }
    Ok(())
}

/// The `custom_id` of choice button `index` of an ask.
pub open spec fn choice_id(ask_id: Seq<char>, index: nat) -> Seq<char> {
    "ask:"@ + ask_id + ":opt:"@ + decimal(index)
}

/// The `custom_id` of an ask's free-text button, reused by its modal.
pub open spec fn text_id(ask_id: Seq<char>) -> Seq<char> {
    "ask:"@ + ask_id + ":text"@
}

/// `ask:<ask_id>:opt:<index>`.
pub fn choice_custom_id(ask_id: &str, index: usize) -> (r: String)
    ensures
        r@ == choice_id(ask_id@, index as nat),
{
    let mut r = String::new();
    r.append("ask:");
    r.append(ask_id);
    r.append(":opt:");
    r.append(u64_to_decimal(index as u64).as_str());
    r
}

/// `ask:<ask_id>:text`.
pub fn text_custom_id(ask_id: &str) -> (r: String)
    ensures
        r@ == text_id(ask_id@),
{
    let mut r = String::new();
    r.append("ask:");
    r.append(ask_id);
    r.append(":text");
    r
}

/// A parsed `ask:` custom_id.
#[derive(Debug, Clone, PartialEq, Eq)]
pub enum CustomId {
    /// `ask:<ask_id>:opt:<index>` — a choice button.
    Choice { ask_id: String, index: usize },
    /// `ask:<ask_id>:text` — the free-text button and its modal.
    Text { ask_id: String },
}

/// What a custom_id reads as: the ask id, with the choice index for a choice
/// button and `None` for the free-text button.
pub open spec fn custom_view(c: Option<CustomId>) -> Option<(Seq<char>, Option<nat>)> {
    match c {
        Some(CustomId::Choice { ask_id, index }) => Some((ask_id@, Some(index as nat))),
        Some(CustomId::Text { ask_id }) => Some((ask_id@, None)),
        None => None,
    }
}

/// The position of the first `c` in `s`.
pub open spec fn first_index(s: Seq<char>, c: char) -> Option<int>
    decreases s.len(),
{
    if s.len() == 0 {
        None
    } else if s[0] == c {
        Some(0)
    } else {
        match first_index(s.drop_first(), c) {
            Some(i) => Some(i + 1),
            None => None,
        }
    }
}

/// The `ask:` custom_id convention: `ask:`, a non-empty ask id up to the
/// next `:`, then `text`, or `opt:` and a choice index. Anything else is
/// not one of ours.
pub open spec fn parse_custom(s: Seq<char>) -> Option<(Seq<char>, Option<nat>)> {
    if s.len() < 4 || s.subrange(0, 4) != "ask:"@ {
        None
    } else {
        let rest = s.subrange(4, s.len() as int);
        match first_index(rest, ':') {
            None => None,
            Some(c) => {
                let ask_id = rest.subrange(0, c);
                let tail = rest.subrange(c + 1, rest.len() as int);
                if ask_id.len() == 0 {
                    None
                } else if tail == "text"@ {
                    Some((ask_id, None))
                } else if tail.len() >= 4 && tail.subrange(0, 4) == "opt:"@ {
                    match parse_unsigned(tail.subrange(4, tail.len() as int), usize::MAX as int) {
                        Some(n) => Some((ask_id, Some(n as nat))),
                        None => None,
                    }
                } else {
                    None
                }
            },
        }
    }
}

proof fn lemma_first_index_found(s: Seq<char>, c: char, i: int)
    requires
        0 <= i < s.len(),
        s[i] == c,
        forall|j: int| 0 <= j < i ==> s[j] != c,
    ensures
        first_index(s, c) == Some(i),
    decreases i,
{
    if i > 0 {
        lemma_first_index_found(s.drop_first(), c, i - 1);
    }
}

proof fn lemma_first_index_absent(s: Seq<char>, c: char)
    requires
        forall|j: int| 0 <= j < s.len() ==> s[j] != c,
    ensures
        first_index(s, c) is None,
    decreases s.len(),
{
    if s.len() > 0 {
        lemma_first_index_absent(s.drop_first(), c);
    }
}

/// Whether `s` begins with `prefix`.
fn starts_with(s: &str, prefix: &str) -> (b: bool)
    ensures
        b == (s@.len() >= prefix@.len() && s@.subrange(0, prefix@.len() as int) == prefix@),
{
    let n = prefix.unicode_len();
    if s.unicode_len() < n {
        return false;
    }
    let head = s.substring_char(0, n);
    str_eq(head, prefix)
}

/// Parses the `ask:` custom_id convention; `None` for any id that is not
/// ours (the daemon shares the gateway with every other interaction).
pub fn parse_custom_id(custom_id: &str) -> (r: Option<CustomId>)
    ensures
        custom_view(r) == parse_custom(custom_id@),
{
    proof {
        reveal_strlit("ask:");
        reveal_strlit("text");
        reveal_strlit("opt:");
    }
    if !starts_with(custom_id, "ask:") {
        return None;
    }
    let len = custom_id.unicode_len();
    let rest = custom_id.substring_char(4, len);
    let rlen = rest.unicode_len();
    let mut c: usize = 0;
    while c < rlen && rest.get_char(c) != ':'
        invariant
            rlen == rest@.len(),
            c <= rlen,
            forall|j: int| 0 <= j < c ==> rest@[j] != ':',
        decreases rlen - c,
    {
        c = c + 1;
    }
    if c == rlen {
        proof { lemma_first_index_absent(rest@, ':'); }
        return None;
    }
    proof { lemma_first_index_found(rest@, ':', c as int); }
    let ask_id = rest.substring_char(0, c);
    let tail = rest.substring_char(c + 1, rlen);
    if ask_id.unicode_len() == 0 {
        return None;
    }
    if str_eq(tail, "text") {
        return Some(CustomId::Text { ask_id: ask_id.to_owned() });
    }
    if !starts_with(tail, "opt:") {
        return None;
    }
    let tlen = tail.unicode_len();
    let digits = tail.substring_char(4, tlen);
    match parse_usize(digits) {
        Some(index) => Some(CustomId::Choice { ask_id: ask_id.to_owned(), index }),
        None => None,
    }
}

proof fn lemma_digit_char_value(d: nat)
    requires
        d < 10,
    ensures
        is_digit(crate::text::digit_char(d)),
        crate::text::digit_value(crate::text::digit_char(d)) == d,
{
}

/// A number's decimal text is a non-empty run of digits that reads back
/// as the number.
pub proof fn lemma_decimal_digits(n: nat)
    ensures
        decimal(n).len() > 0,
        all_digits(decimal(n)),
        digits_value(decimal(n)) == n,
    decreases n,
{
    lemma_digit_char_value(n % 10);
    if n >= 10 {
        lemma_decimal_digits(n / 10);
        let d = decimal(n / 10);
        assert(decimal(n).drop_last() =~= d);
        assert(decimal(n).last() == crate::text::digit_char(n % 10));
        assert(digits_value(decimal(n)) == digits_value(d) * 10 + crate::text::digit_value(crate::text::digit_char(n % 10)));
        assert(n == (n / 10) * 10 + n % 10);
    } else {
        let s = decimal(n);
        assert(s.drop_last() =~= Seq::<char>::empty());
        assert(digits_value(s) == digits_value(s.drop_last()) * 10 + crate::text::digit_value(s.last()));
    }
}

/// Which `ask create` requests are accepted: exactly those with a
/// non-blank question, one to four choices, none of them blank, and a
/// non-zero timeout. Every other request is refused with a usage error.
pub proof fn lemma_ask_acceptance(req: AskCreateRequest, r: Result<(), AppError>)
    requires
        ask_verdict(req, r),
    ensures
        r is Ok <==> {
            &&& !blank(req.question@)
            &&& 1 <= req.options@.len() <= 4
            &&& forall|i: int| 0 <= i < req.options@.len() ==> !blank(#[trigger] req.options@[i]@)
            &&& req.timeout_secs > 0
        },
        r matches Err(e) ==> e.kind == ErrorKind::Usage,
{
}

/// The `custom_id` convention round-trips: the daemon reads back exactly
/// the ask and choice that `ask create` wrote into a button, for any ask id
/// that is non-empty and free of `:` (a Discord snowflake is digits only)
/// and any index.
pub proof fn lemma_custom_id_round_trip(ask_id: Seq<char>, index: usize)
    requires
        ask_id.len() > 0,
        !ask_id.contains(':'),
    ensures
        parse_custom(choice_id(ask_id, index as nat)) == Some((ask_id, Some(index as nat))),
        parse_custom(text_id(ask_id)) == Some((ask_id, None::<nat>)),
{
    reveal_strlit("ask:");
    reveal_strlit(":opt:");
    reveal_strlit(":text");
    reveal_strlit("text");
    reveal_strlit("opt:");
    let s = choice_id(ask_id, index as nat);
    let rest = s.subrange(4, s.len() as int);
    assert(s.subrange(0, 4) =~= "ask:"@);
    assert(rest =~= ask_id + ":opt:"@ + decimal(index as nat));
    assert forall|j: int| 0 <= j < ask_id.len() implies rest[j] != ':' by {
        assert(rest[j] == ask_id[j]);
    }
    lemma_first_index_found(rest, ':', ask_id.len() as int);
    let tail = rest.subrange(ask_id.len() as int + 1, rest.len() as int);
    assert(rest.subrange(0, ask_id.len() as int) =~= ask_id);
    assert(tail =~= "opt:"@ + decimal(index as nat));
    assert(tail.subrange(0, 4) =~= "opt:"@);
    let digits = tail.subrange(4, tail.len() as int);
    assert(digits =~= decimal(index as nat));
    lemma_decimal_digits(index as nat);
    assert(digits[0] != '+') by {
        assert(is_digit(digits[0]));
    }
    assert(tail != "text"@) by {
        assert(tail[0] == 'o');
    }
    let t = text_id(ask_id);
    let trest = t.subrange(4, t.len() as int);
    assert(t.subrange(0, 4) =~= "ask:"@);
    assert(trest =~= ask_id + ":text"@);
    assert forall|j: int| 0 <= j < ask_id.len() implies trest[j] != ':' by {
        assert(trest[j] == ask_id[j]);
    }
    lemma_first_index_found(trest, ':', ask_id.len() as int);
    assert(trest.subrange(0, ask_id.len() as int) =~= ask_id);
    assert(trest.subrange(ask_id.len() as int + 1, trest.len() as int) =~= "text"@);
}

/// Lifecycle status of an ask.
#[derive(Debug, Clone, Copy, PartialEq, Eq, Structural)]
pub enum AskStatus {
    Pending,
    Answered,
    TimedOut,
}

/// A persisted ask. Timestamps are canonical RFC 3339 UTC strings.
#[derive(Debug, Clone, PartialEq, Eq)]
pub struct AskRecord {
    pub ask_id: String,
    pub channel_id: String,
    pub question: String,
    pub options: Vec<String>,
    pub allow_text: bool,
    pub status: AskStatus,
    pub kind: Option<String>,
    pub value: Option<String>,
    pub answered_by: Option<String>,
    pub created_at: String,
    pub timeout_at: String,
    pub answered_at: Option<String>,
}

impl AskRecord {
    /// The store's invariant: the answer columns are set together, in the
    /// same write that marks the ask answered.
    pub open spec fn wf(self) -> bool {
        self.status == AskStatus::Answered ==> {
            &&& self.kind is Some
            &&& self.value is Some
            &&& self.answered_by is Some
            &&& self.answered_at is Some
        }
    }
}

/// How an ask is reported.
#[derive(Debug, Clone, PartialEq, Eq)]
pub enum AskResultData {
    Pending { ask_id: String },
    Answered { ask_id: String, kind: String, value: String, answered_by: String, answered_at: String },
    TimedOut { ask_id: String },
}

/// `ask wait`'s answer: the ask as it stands, and whether the poll budget
/// ran out while it was still pending.
#[derive(Debug, Clone, PartialEq, Eq)]
pub struct AskWaitData {
    pub result: AskResultData,
    pub timed_out: bool,
}

/// `ask create`'s answer.
#[derive(Debug, Clone, PartialEq, Eq)]
pub struct AskCreateData {
    pub ask_id: String,
    pub status: String,
    pub channel_id: String,
}

pub open spec fn opt_eq(a: Option<String>, b: String) -> bool {
    a matches Some(x) && x@ == b@
}

/// Reports an ask as its status stands, with the answer when it has one.
pub fn ask_result_from_record(record: &AskRecord) -> (r: AskResultData)
    requires
        record.wf(),
    ensures
        result_matches(*record, r),
{
    match record.status {
        AskStatus::Pending => AskResultData::Pending { ask_id: record.ask_id.clone() },
        AskStatus::TimedOut => AskResultData::TimedOut { ask_id: record.ask_id.clone() },
        AskStatus::Answered => {
            let kind = match &record.kind { Some(k) => k.clone(), None => String::new() };
            let value = match &record.value { Some(k) => k.clone(), None => String::new() };
            let answered_by = match &record.answered_by { Some(k) => k.clone(), None => String::new() };
            let answered_at = match &record.answered_at { Some(k) => k.clone(), None => String::new() };
            AskResultData::Answered { ask_id: record.ask_id.clone(), kind, value, answered_by, answered_at }
        },
    }
}

/// Whether a fetched ask must be timed out locally: it is still pending
/// although its deadline is not after `now`. A daemon that is down or slow
/// must not leave `ask wait` polling forever.
pub fn overdue(record: &AskRecord, now: &str) -> (b: bool)
    ensures
        b == (record.status == AskStatus::Pending && !lex_lt(now@, record.timeout_at@)),
{
    match record.status {
        AskStatus::Pending => !str_lt(now, record.timeout_at.as_str()),
        _ => false,
    }
}

/// `ask wait`'s answer for a record: its result, and whether the poll budget
/// ended on a still-pending ask.
pub fn ask_wait_payload(record: &AskRecord, timed_out: bool) -> (r: AskWaitData)
    requires
        record.wf(),
    ensures
        r.timed_out == timed_out,
        result_matches(*record, r.result),
{
    let result = ask_result_from_record(record);
    AskWaitData { result, timed_out }
}

/// `r` reports `record`: the variant of its status, its ask id, and for an
/// answered ask the answer's kind, value, author and time.
pub open spec fn result_matches(record: AskRecord, r: AskResultData) -> bool {
    match record.status {
        AskStatus::Pending => r matches AskResultData::Pending { ask_id } && ask_id@ == record.ask_id@,
        AskStatus::TimedOut => r matches AskResultData::TimedOut { ask_id } && ask_id@ == record.ask_id@,
        AskStatus::Answered => r matches AskResultData::Answered { ask_id, kind, value, answered_by, answered_at } && {
            &&& ask_id@ == record.ask_id@
            &&& opt_eq(record.kind, kind)
            &&& opt_eq(record.value, value)
            &&& opt_eq(record.answered_by, answered_by)
            &&& opt_eq(record.answered_at, answered_at)
        },
    }
}

/// The look of a button.
#[derive(Debug, Clone, Copy, PartialEq, Eq, Structural)]
pub enum ButtonStyle {
    /// A choice.
    Primary,
    /// The free-text button.
    Secondary,
}

/// One button of an ask's action row.
#[derive(Debug, Clone, PartialEq, Eq)]
pub struct AskButton {
    pub style: ButtonStyle,
    pub label: String,
    pub custom_id: String,
}

/// The label of the free-text button.
pub open spec fn text_button_label() -> Seq<char> {
    "✏️ 직접 입력"@
}

/// The single action row of an ask: one primary button per choice, in
/// order, carrying `ask:<id>:opt:<n>`, then, when free text is allowed, a
/// secondary button carrying `ask:<id>:text`.
pub open spec fn are_ask_buttons(ask_id: Seq<char>, options: Seq<String>, allow_text: bool, r: Seq<AskButton>) -> bool {
    &&& r.len() == options.len() + (if allow_text { 1int } else { 0int })
    &&& forall|i: int| 0 <= i < options.len() ==> {
        let b = #[trigger] r[i];
        &&& b.style == ButtonStyle::Primary
        &&& b.label@ == options[i]@
        &&& b.custom_id@ == choice_id(ask_id, i as nat)
    }
    &&& allow_text ==> {
        let b = r[options.len() as int];
        &&& b.style == ButtonStyle::Secondary
        &&& b.label@ == text_button_label()
        &&& b.custom_id@ == text_id(ask_id)
    }
}

/// The buttons of the ask whose question message is `ask_id`; see
/// [`are_ask_buttons`].
pub fn ask_buttons(ask_id: &str, options: &Vec<String>, allow_text: bool) -> (r: Vec<AskButton>)
    ensures
        are_ask_buttons(ask_id@, options@, allow_text, r@),
{
    let mut buttons: Vec<AskButton> = Vec::new();
    let mut i: usize = 0;
    while i < options.len()
        invariant
            i <= options@.len(),
            buttons@.len() == i,
            forall|t: int| 0 <= t < i ==> {
                let b = #[trigger] buttons@[t];
                &&& b.style == ButtonStyle::Primary
                &&& b.label@ == options@[t]@
                &&& b.custom_id@ == choice_id(ask_id@, t as nat)
            },
        decreases options@.len() - i,
    {
        let label = options[i].clone();
        buttons.push(AskButton { style: ButtonStyle::Primary, label, custom_id: choice_custom_id(ask_id, i) });
        i = i + 1;
    }
    if allow_text {
        buttons.push(AskButton {
            style: ButtonStyle::Secondary,
            label: String::from_str("✏️ 직접 입력"),
            custom_id: text_custom_id(ask_id),
        });
    }
    buttons
}

/// `ask create` needs the daemon: without it nobody answers the buttons.
pub fn require_daemon(running: bool) -> (r: Result<(), AppError>)
    ensures
        running ==> r is Ok,
        !running ==> (r matches Err(e) && plain_error(
            ErrorKind::Usage,
            "daemon not running — run 'discord daemon start'"@,
            e,
        )),
{
    if running {
        Ok(())
    } else {
        Err(AppError::new(ErrorKind::Usage, "daemon not running — run 'discord daemon start'"))
    }
}

/// `ask create`'s answer for the question message Discord accepted.
pub fn ask_create_answer(message_id: String, channel_id: String) -> (r: AskCreateData)
    ensures
        r.ask_id == message_id,
        r.status@ == "pending"@,
        r.channel_id == channel_id,
{
    AskCreateData { ask_id: message_id, status: String::from_str("pending"), channel_id }
}

/// The error for an ask id the store does not know.
pub fn no_such_ask(ask_id: &str) -> (e: AppError)
    ensures
        plain_error(ErrorKind::Usage, "no such ask: "@ + ask_id@, e),
{
    let mut message = String::new();
    message.append("no such ask: ");
    message.append(ask_id);
    AppError::with_message(ErrorKind::Usage, message)
}

/// How many polls `ask wait` makes: `ceil(timeout / interval)`, at least one.
pub open spec fn ask_poll_budget_of(timeout: u64, interval: u64) -> int {
    let polls = (timeout as int + interval as int - 1) / interval as int;
    if polls < 1 { 1 } else { polls }
}

/// Validates `ask wait`'s interval and answers its poll budget.
pub fn ask_poll_budget(timeout: u64, interval: u64) -> (r: Result<u64, AppError>)
    ensures
        interval == 0 ==> (r matches Err(e) && plain_error(ErrorKind::Usage, "interval must be greater than 0"@, e)),
        interval > 0 ==> r == Ok::<u64, AppError>(ask_poll_budget_of(timeout, interval) as u64),
{
    if interval == 0 {
        return Err(AppError::new(ErrorKind::Usage, "interval must be greater than 0"));
    }
    let whole = timeout / interval;
    assert(timeout % interval != 0 ==> whole < u64::MAX) by (nonlinear_arith)
        requires
            interval > 0,
            whole == timeout / interval,
    ;
    let polls = if timeout % interval == 0 { whole } else { whole + 1 };
    assert(polls == (timeout as int + interval as int - 1) / interval as int) by (nonlinear_arith)
        requires
            interval > 0,
            whole == timeout / interval,
            timeout % interval == 0 ==> polls == whole,
            timeout % interval != 0 ==> polls == whole + 1,
    ;
    if polls < 1 { Ok(1) } else { Ok(polls) }
}

/// What `ask wait` does after fetching the ask.
#[derive(Debug, Clone, PartialEq, Eq)]
pub enum AskWaitStep {
    /// Stop and report this.
    Finished(AskWaitData),
    /// Sleep one interval, then fetch again.
    SleepThenPoll,
    /// Fetch once more without sleeping: the budget is spent.
    PollAgain,
}

/// The decision after fetch number `poll` (from zero) of a budget of
/// `max_polls`, where fetch `max_polls` is the final one: an ask that left
/// `pending` finishes the wait; a still-pending ask sleeps and is fetched
/// again, is fetched once more at the end of the budget, and on the final
/// fetch finishes with the poll budget reported as spent (a normal outcome).
pub fn ask_wait_step(record: &AskRecord, poll: u64, max_polls: u64) -> (r: AskWaitStep)
    requires
        record.wf(),
        poll <= max_polls,
    ensures
        record.status != AskStatus::Pending ==> (r matches AskWaitStep::Finished(d) && !d.timed_out
            && result_matches(*record, d.result)),
        record.status == AskStatus::Pending && poll == max_polls ==> (r matches AskWaitStep::Finished(d)
            && d.timed_out && result_matches(*record, d.result)),
        record.status == AskStatus::Pending && poll + 1 < max_polls ==> r == AskWaitStep::SleepThenPoll,
        record.status == AskStatus::Pending && poll + 1 == max_polls ==> r == AskWaitStep::PollAgain,
{
    if record.status != AskStatus::Pending {
        return AskWaitStep::Finished(ask_wait_payload(record, false));
    }
    if poll == max_polls {
        return AskWaitStep::Finished(ask_wait_payload(record, true));
    }
    if poll + 1 < max_polls {
        AskWaitStep::SleepThenPoll
    } else {
        AskWaitStep::PollAgain
    }
}


// ---------------------------------------------------------------------------
// `ask create`, step by step.
// ---------------------------------------------------------------------------

/// The ask `ask create` stores once its buttons are attached; the store
/// stamps its creation time and its deadline `timeout_secs` later.
#[derive(Debug, Clone, PartialEq, Eq)]
pub struct PendingAsk {
    pub ask_id: String,
    pub channel_id: String,
    pub question: String,
    pub options: Vec<String>,
    pub allow_text: bool,
    pub timeout_secs: u64,
}

/// What happened since the last step of `ask create`.
#[derive(Debug, PartialEq, Eq)]
pub enum AskCreateEvent {
    /// Nothing yet; whether the daemon is running.
    Start { daemon_running: bool },
    /// Discord created the question message.
    QuestionSent { message_id: String, channel_id: String },
    /// Sending the question failed.
    QuestionFailed(AppError),
    /// The buttons were attached to the question message.
    ButtonsAttached { message_id: String, channel_id: String },
    /// Attaching the buttons failed.
    ButtonsFailed { message_id: String, channel_id: String, error: AppError },
    /// The orphan marker was sent, or failed to be; `error` is the one that
    /// stopped the ask.
    OrphanMarked(AppError),
    /// The pending ask was stored.
    Stored { message_id: String, channel_id: String },
    /// Storing the pending ask failed.
    StoreFailed(AppError),
}

/// What `ask create` does next.
#[derive(Debug, PartialEq, Eq)]
pub enum AskCreateAction {
    /// Post the question as a plain message.
    SendQuestion(SendRequest),
    /// Attach `buttons` to the question message.
    AttachButtons { channel_id: String, message_id: String, buttons: Vec<AskButton> },
    /// Reply `marker` to the question message, ignoring how that goes, then
    /// come back with `OrphanMarked(error)`.
    MarkOrphaned { marker: SendRequest, error: AppError },
    /// Store the pending ask.
    Store(PendingAsk),
    /// Stop with this answer.
    Finish(Result<AskCreateData, AppError>),
}

/// The reply left on a question whose buttons could not be attached, so it
/// never looks answerable.
pub open spec fn orphan_marker_text() -> Seq<char> {
    "⚠️ 질문 등록 실패 — 버튼을 연결하지 못했습니다."@
}

pub open spec fn daemon_not_running_message() -> Seq<char> {
    "daemon not running — run 'discord daemon start'"@
}

/// One step of `ask create`. The order is: the daemon must be running, the
/// request must be valid, then the question is sent, its buttons attached
/// and only then the pending ask stored, so a stored ask always has a
/// message with buttons. A failed attachment leaves a marker reply on the
/// message and ends with the attachment's error; any other failure ends
/// with its own error.
pub fn ask_create_step(req: &AskCreateRequest, event: AskCreateEvent) -> (r: AskCreateAction)
    ensures
        match event {
            AskCreateEvent::Start { daemon_running } => if !daemon_running {
                r matches AskCreateAction::Finish(Err(e)) && plain_error(ErrorKind::Usage, daemon_not_running_message(), e)
            } else if !ask_verdict(*req, Ok(())) {
                r matches AskCreateAction::Finish(Err(e)) && ask_verdict(*req, Err(e))
            } else {
                r matches AskCreateAction::SendQuestion(q) && {
                    &&& q.channel_id@ == req.channel_id@
                    &&& q.content@ == req.question@
                    &&& q.reply_to is None
                    &&& q.files@.len() == 0
                }
            },
            AskCreateEvent::QuestionSent { message_id, channel_id } =>
                r matches AskCreateAction::AttachButtons { channel_id: c, message_id: m, buttons } && {
                    &&& c@ == channel_id@
                    &&& m@ == message_id@
                    &&& are_ask_buttons(message_id@, req.options@, req.allow_text, buttons@)
                },
            AskCreateEvent::QuestionFailed(e) => r == AskCreateAction::Finish(Err(e)),
            AskCreateEvent::ButtonsAttached { message_id, channel_id } =>
                r matches AskCreateAction::Store(p) && {
                    &&& p.ask_id@ == message_id@
                    &&& p.channel_id@ == channel_id@
                    &&& p.question@ == req.question@
                    &&& p.options.deep_view() == req.options.deep_view()
                    &&& p.allow_text == req.allow_text
                    &&& p.timeout_secs == req.timeout_secs
                },
            AskCreateEvent::ButtonsFailed { message_id, channel_id, error } =>
                r matches AskCreateAction::MarkOrphaned { marker, error: e } && {
                    &&& marker.channel_id@ == channel_id@
                    &&& marker.content@ == orphan_marker_text()
                    &&& marker.reply_to matches Some(to) && to@ == message_id@
                    &&& marker.files@.len() == 0
                    &&& e == error
                },
            AskCreateEvent::OrphanMarked(e) => r == AskCreateAction::Finish(Err(e)),
            AskCreateEvent::Stored { message_id, channel_id } =>
                r matches AskCreateAction::Finish(Ok(d)) && {
                    &&& d.ask_id == message_id
                    &&& d.status@ == "pending"@
                    &&& d.channel_id == channel_id
                },
            AskCreateEvent::StoreFailed(e) => r == AskCreateAction::Finish(Err(e)),
        },
{
    match event {
        AskCreateEvent::Start { daemon_running } => {
            if let Err(e) = require_daemon(daemon_running) {
                return AskCreateAction::Finish(Err(e));
            }
            match validate_ask_create(req) {
                Err(e) => AskCreateAction::Finish(Err(e)),
                Ok(()) => AskCreateAction::SendQuestion(SendRequest {
                    channel_id: req.channel_id.clone(),
                    content: req.question.clone(),
                    reply_to: None,
                    files: Vec::new(),
                }),
            }
        },
        AskCreateEvent::QuestionSent { message_id, channel_id } => {
            let buttons = ask_buttons(message_id.as_str(), &req.options, req.allow_text);
            AskCreateAction::AttachButtons { channel_id, message_id, buttons }
        },
        AskCreateEvent::QuestionFailed(e) => AskCreateAction::Finish(Err(e)),
        AskCreateEvent::ButtonsAttached { message_id, channel_id } => AskCreateAction::Store(PendingAsk {
            ask_id: message_id,
            channel_id,
            question: req.question.clone(),
            options: req.options.clone(),
            allow_text: req.allow_text,
            timeout_secs: req.timeout_secs,
        }),
        AskCreateEvent::ButtonsFailed { message_id, channel_id, error } => AskCreateAction::MarkOrphaned {
            marker: SendRequest {
                channel_id,
                content: String::from_str("⚠️ 질문 등록 실패 — 버튼을 연결하지 못했습니다."),
                reply_to: Some(message_id),
                files: Vec::new(),
            },
            error,
        },
        AskCreateEvent::OrphanMarked(e) => AskCreateAction::Finish(Err(e)),
        AskCreateEvent::Stored { message_id, channel_id } => AskCreateAction::Finish(Ok(ask_create_answer(message_id, channel_id))),
        AskCreateEvent::StoreFailed(e) => AskCreateAction::Finish(Err(e)),
    }
}

} // verus!
