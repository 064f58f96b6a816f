//! Captchas: their codes, and the store of those that were handed out.

use vstd::prelude::*;

use crate::reply::{self, ApiResponse, ApiResponseView, Data, DataView, ErrorReply, ErrorReplyView};
use crate::keyed::{self, Keyed};
use crate::{model, outside, text};

verus! {

/// How long a captcha may be answered, in nanoseconds: five minutes.
pub const CAPTCHA_EXPIRY_NANOS: u128 = 300_000_000_000;

/// The number of characters of a captcha.
pub const CAPTCHA_LENGTH: usize = 6;

/// A character that a captcha may hold.
pub open spec fn is_code_char(c: char) -> bool {
    '0' <= c <= '9' || 'A' <= c <= 'Z'
}

/// The character with the given place among the digits and capital letters.
pub open spec fn code_char(index: int) -> char {
    if index < 10 {
        (index + '0' as int) as char
    } else {
        (index - 10 + 'A' as int) as char
    }
}

/// The place of a character among the digits and capital letters; zero for any
/// other character.
pub open spec fn code_index(c: char) -> int {
    if '0' <= c <= '9' {
        c as int - '0' as int
    } else if 'A' <= c <= 'Z' {
        10 + (c as int - 'A' as int)
    } else {
        0
    }
}

/// Gives the place of a character in the font.
pub fn char_to_index(c: char) -> (r: usize)
    ensures
        r == code_index(c),
        r < 36,
{
    if '0' <= c && c <= '9' {
        (c as u32 - '0' as u32) as usize
    } else if 'A' <= c && c <= 'Z' {
        (10 + (c as u32 - 'A' as u32)) as usize
    } else {
        0
    }
}

/// The two directions between characters and places undo each other.
pub proof fn index_undoes_char(index: int)
    requires
        0 <= index < 36,
    ensures
        is_code_char(code_char(index)),
        code_index(code_char(index)) == index,
{
}

fn code_text(index: u8) -> (r: String)
    requires
        index < 36,
    ensures
        r@ == seq![code_char(index as int)],
{
    let all: &str = "0123456789ABCDEFGHIJKLMNOPQRSTUVWXYZ";
    proof {
        reveal_strlit("0123456789ABCDEFGHIJKLMNOPQRSTUVWXYZ");
    }
    let r: &str = all.substring_char(index as usize, index as usize + 1);
    assert(r@ =~= seq![code_char(index as int)]);
    r.to_owned()
}

/// The code with the given places.
pub open spec fn code_of(indices: Seq<u8>) -> Seq<char> {
    indices.map_values(|i: u8| code_char(i as int))
}

/// Writes the code with the given places.
pub fn code_from_indices(indices: &Vec<u8>) -> (r: String)
    requires
        forall|i: int| 0 <= i < indices@.len() ==> #[trigger] indices@[i] < 36,
    ensures
        r@ == code_of(indices@),
{
    let mut r: String = String::new();
    let mut i: usize = 0;
    while i < indices.len()
        invariant
            i <= indices@.len(),
            forall|j: int| 0 <= j < indices@.len() ==> #[trigger] indices@[j] < 36,
            r@ == code_of(indices@.take(i as int)),
        decreases indices@.len() - i,
    {
        let c: String = code_text(indices[i]);
        r.append(c.as_str());
        assert(code_of(indices@.take(i + 1)) =~= code_of(indices@.take(i as int)) + c@);
        i = i + 1;
    }
    assert(indices@.take(i as int) =~= indices@);
    r
}

/// Whether a text has the form of a captcha.
pub open spec fn is_captcha_code(s: Seq<char>) -> bool {
    s.len() == CAPTCHA_LENGTH && forall|i: int| 0 <= i < s.len() ==> is_code_char(#[trigger] s[i])
}

/// Makes a random code of six digits and capital letters.
pub fn generate_captcha_code() -> (r: String)
    ensures
        is_captcha_code(r@),
{
    let mut indices: Vec<u8> = Vec::new();
    while indices.len() < CAPTCHA_LENGTH
        invariant
            indices@.len() <= CAPTCHA_LENGTH,
            forall|j: int| 0 <= j < indices@.len() ==> #[trigger] indices@[j] < 36,
        decreases CAPTCHA_LENGTH - indices@.len(),
    {
        indices.push(outside::random_in(0, 36) as u8);
    }
    let r: String = code_from_indices(&indices);
    assert forall|i: int| 0 <= i < r@.len() implies is_code_char(#[trigger] r@[i]) by {
        assert(indices@[i] < 36);
    }
    r
}

/// A captcha that was handed out.
#[derive(Debug)]
pub struct CaptchaSession {
    pub code: String,
    /// When it was handed out, in nanoseconds of a clock that never goes back.
    pub created_at: u128,
    pub used: bool,
}

/// The plain value of a [`CaptchaSession`].
pub struct CaptchaSessionView {
    pub code: Seq<char>,
    pub created_at: int,
    pub used: bool,
}

impl View for CaptchaSession {
    type V = CaptchaSessionView;

    open spec fn view(&self) -> CaptchaSessionView {
        CaptchaSessionView {
            code: self.code@,
            created_at: self.created_at as int,
            used: self.used,
        }
    }
}

/// The captchas that were handed out, by their numbers.
#[derive(Debug)]
pub struct CaptchaStore {
    entries: Keyed<CaptchaSession>,
}

/// How long ago `created` was at `now`; zero where the clock reads less.
pub open spec fn elapsed(created: int, now: int) -> int {
    if created < now {
        now - created
    } else {
        0
    }
}

fn elapsed_nanos(created: u128, now: u128) -> (r: u128)
    ensures
        r == elapsed(created as int, now as int),
{
    if created < now {
        now - created
    } else {
        0
    }
}

/// Whether a captcha is still fresh at `now`.
pub open spec fn fresh_at(now: int) -> spec_fn(CaptchaSessionView) -> bool {
    |s: CaptchaSessionView| elapsed(s.created_at, now) < CAPTCHA_EXPIRY_NANOS
}

fn is_fresh(s: &CaptchaSession, now: u128) -> (r: bool)
    ensures
        r == fresh_at(now as int)(s@),
{
    elapsed_nanos(s.created_at, now) < CAPTCHA_EXPIRY_NANOS
}

/// The captchas that are still fresh at `now`.
pub open spec fn fresh_ones(
    store: Map<Seq<char>, CaptchaSessionView>,
    now: int,
) -> Map<Seq<char>, CaptchaSessionView> {
    keyed::restricted(store, fresh_at(now))
}

impl View for CaptchaStore {
    type V = Map<Seq<char>, CaptchaSessionView>;

    closed spec fn view(&self) -> Map<Seq<char>, CaptchaSessionView> {
        self.entries@
    }
}

impl CaptchaStore {
    /// No number stands twice.
    pub closed spec fn wf(&self) -> bool {
        self.entries.wf()
    }

    pub fn new() -> (r: CaptchaStore)
        ensures
            r.wf(),
            r@ == Map::<Seq<char>, CaptchaSessionView>::empty(),
    {
        CaptchaStore { entries: Keyed::new() }
    }

    /// Drops the captchas that are past their time.
    pub fn purge(&mut self, now: u128)
        requires
            old(self).wf(),
        ensures
            final(self).wf(),
            final(self)@ == fresh_ones(old(self)@, now as int),
    {
        let ghost keep = fresh_at(now as int);
        let fresh = |s: &CaptchaSession| -> (b: bool)
            ensures
                b == keep(s@),
            { is_fresh(s, now) };
        self.entries.retain(fresh, Ghost(keep));
    }

    /// Puts a captcha under a number, in place of one that stood there.
    pub fn insert(&mut self, id: String, session: CaptchaSession)
        requires
            old(self).wf(),
        ensures
            final(self).wf(),
            final(self)@ == old(self)@.insert(id@, session@),
    {
        self.entries.insert(id, session);
    }
}

/// A value that was given and is not empty.
pub open spec fn given(s: Option<Seq<char>>) -> Option<Seq<char>> {
    match s {
        Some(t) => text::unless_empty(t),
        None => None,
    }
}

/// What an answer, in capital letters, does to the store and what it is told.
pub open spec fn answer_verdict(
    store: Map<Seq<char>, CaptchaSessionView>,
    id: Seq<char>,
    answer: Seq<char>,
    now: int,
) -> (Map<Seq<char>, CaptchaSessionView>, Result<(), Seq<char>>) {
    if !store.contains_key(id) {
        (store, Err("invalid or expired captcha"@))
    } else {
        let s = store[id];
        if s.used {
            (store, Err("captcha already used"@))
        } else if elapsed(s.created_at, now) > CAPTCHA_EXPIRY_NANOS {
            (store.remove(id), Err("captcha expired"@))
        } else {
            let spent = store.insert(id, CaptchaSessionView { used: true, ..s });
            if s.code == answer {
                (spent, Ok(()))
            } else {
                (spent, Err("incorrect captcha"@))
            }
        }
    }
}

/// What a request does to the store and what it is told: the number and the answer have
/// to be given, and the answer counts in capital letters.
pub open spec fn captcha_verdict(
    store: Map<Seq<char>, CaptchaSessionView>,
    id: Option<Seq<char>>,
    code: Option<Seq<char>>,
    now: int,
) -> (Map<Seq<char>, CaptchaSessionView>, Result<(), Seq<char>>) {
    match (given(id), given(code)) {
        (Some(id), Some(code)) => answer_verdict(store, id, outside::uppercase_text(code), now),
        _ => (store, Err("captcha_id and captcha_code are required"@)),
    }
}

/// The reply to a captcha that was not passed.
pub open spec fn captcha_refusal(verdict: Result<(), Seq<char>>) -> Result<(), ErrorReplyView> {
    match verdict {
        Ok(_) => Ok(()),
        Err(m) => Err(reply::failure(reply::BAD_REQUEST, m)),
    }
}

/// Checks an answer in capital letters. Whatever the answer, a fresh captcha is spent by
/// it.
pub fn check_answer(store: &mut CaptchaStore, id: &str, answer: &str, now: u128) -> (r: Result<
    (),
    ErrorReply,
>)
    requires
        old(store).wf(),
    ensures
        final(store).wf(),
        final(store)@ == answer_verdict(old(store)@, id@, answer@, now as int).0,
        model::outcome(r) == captcha_refusal(
            answer_verdict(old(store)@, id@, answer@, now as int).1,
        ),
{
    let (session_code, created_at, used): (String, u128, bool) = match store.entries.get(id) {
        Some(s) => (s.code.clone(), s.created_at, s.used),
        None => {
            return Err(reply::fail(reply::BAD_REQUEST, "invalid or expired captcha"));
        },
    };
    if used {
        return Err(reply::fail(reply::BAD_REQUEST, "captcha already used"));
    }
    if elapsed_nanos(created_at, now) > CAPTCHA_EXPIRY_NANOS {
        store.entries.remove(id);
        return Err(reply::fail(reply::BAD_REQUEST, "captcha expired"));
    }
    let right: bool = text::same(session_code.as_str(), answer);
    store.entries.insert(
        id.to_owned(),
        CaptchaSession { code: session_code, created_at, used: true },
    );
    if right {
        Ok(())
    } else {
        Err(reply::fail(reply::BAD_REQUEST, "incorrect captcha"))
    }
}

/// An answer in ASCII is compared letter by letter, each small letter as the capital
/// one.
pub open spec fn ascii_answer_is_raised(code: Option<Seq<char>>) -> bool {
    given(code) matches Some(c) ==> outside::is_ascii_text(c) ==> outside::uppercase_text(c)
        == c.map_values(|x: char| outside::ascii_upper(x))
}

/// Checks the captcha of a request.
pub fn verify_captcha(
    store: &mut CaptchaStore,
    captcha_id: Option<&str>,
    captcha_code: Option<&str>,
    now: u128,
) -> (r: Result<(), ErrorReply>)
    requires
        old(store).wf(),
    ensures
        final(store).wf(),
        final(store)@ == captcha_verdict(
            old(store)@,
            captcha_id.deep_view(),
            captcha_code.deep_view(),
            now as int,
        ).0,
        model::outcome(r) == captcha_refusal(
            captcha_verdict(
                old(store)@,
                captcha_id.deep_view(),
                captcha_code.deep_view(),
                now as int,
            ).1,
        ),
        given(captcha_id.deep_view()) is Some ==> ascii_answer_is_raised(captcha_code.deep_view()),
{
    let (id, code) = match (captcha_id, captcha_code) {
        (Some(i), Some(c)) => {
            if i.is_empty() || c.is_empty() {
                return Err(
                    reply::fail(
                        reply::BAD_REQUEST,
                        "captcha_id and captcha_code are required",
                    ),
                );
            }
            (i, c)
        },
        _ => {
            return Err(
                reply::fail(reply::BAD_REQUEST, "captcha_id and captcha_code are required"),
            );
        },
    };
    let wanted: String = outside::to_uppercase(code);
    check_answer(store, id, wanted.as_str(), now)
}

/// A captcha that is about to be handed out.
#[derive(Debug)]
pub struct CaptchaDraft {
    pub id: String,
    pub code: String,
}

/// Begins a captcha: a fresh number and a random code, whose image is drawn next.
pub fn draft_captcha() -> (r: CaptchaDraft)
    ensures
        outside::is_simple_uuid(r.id@),
        is_captcha_code(r.code@),
{
    let code: String = generate_captcha_code();
    let id: String = outside::random_uuid();
    CaptchaDraft { id, code }
}

/// The store after a captcha was handed out at `now`.
pub open spec fn captcha_issued(
    store: Map<Seq<char>, CaptchaSessionView>,
    id: Seq<char>,
    code: Seq<char>,
    now: int,
) -> Map<Seq<char>, CaptchaSessionView> {
    fresh_ones(store, now).insert(id, CaptchaSessionView { code, created_at: now, used: false })
}

/// The answer to a request for a captcha: its number, and its picture as a data URL.
pub open spec fn captcha_answer(id: Seq<char>, encoded: Seq<char>) -> ApiResponseView {
    ApiResponseView::ok_with_data(
        "ok"@,
        DataView::Captcha {
            captcha_id: id,
            captcha_image: "data:image/png;base64,"@ + encoded,
        },
    )
}

/// Answers a request for a captcha, given its picture in Base64.
pub fn captcha_response(id: String, encoded: &str) -> (r: ApiResponse)
    ensures
        r@ == captcha_answer(id@, encoded@),
{
    let image: String = "data:image/png;base64,".to_owned().concat(encoded);
    ApiResponse::ok_with_data("ok", Data::Captcha { captcha_id: id, captcha_image: image })
}

/// Hands out a captcha with its image, and drops the captchas that are past their
/// time.
pub fn handle_captcha(
    store: &mut CaptchaStore,
    draft: CaptchaDraft,
    png: &Vec<u8>,
    now: u128,
) -> (r: ApiResponse)
    requires
        old(store).wf(),
        4 * ((png@.len() + 2) / 3) <= isize::MAX,
    ensures
        final(store).wf(),
        final(store)@ == captcha_issued(old(store)@, draft.id@, draft.code@, now as int),
        r@ == captcha_answer(draft.id@, outside::base64_text(png@)),
{
    let encoded: String = outside::base64_encode(png);
    store.purge(now);
    store.insert(
        draft.id.clone(),
        CaptchaSession { code: draft.code, created_at: now, used: false },
    );
    captcha_response(draft.id, encoded.as_str())
}

/// A captcha can be answered once: after any answer to it, no further answer passes,
/// until the number is handed out again.
pub proof fn captcha_passes_once(
    store: Map<Seq<char>, CaptchaSessionView>,
    id: Seq<char>,
    first: Option<Seq<char>>,
    second: Option<Seq<char>>,
    t1: int,
    t2: int,
)
    requires
        given(first) is Some,
    ensures
        captcha_verdict(
            captcha_verdict(store, Some(id), first, t1).0,
            Some(id),
            second,
            t2,
        ).1 is Err,
{
}

/// A captcha that was handed out is passed within five minutes by every answer whose
/// capital form is its code, and by no other.
pub proof fn issued_captcha_accepts_its_code(
    store: Map<Seq<char>, CaptchaSessionView>,
    id: Seq<char>,
    code: Seq<char>,
    answer: Seq<char>,
    issued: int,
    now: int,
)
    requires
        id.len() > 0,
        is_captcha_code(code),
        answer.len() > 0,
        issued <= now <= issued + CAPTCHA_EXPIRY_NANOS,
    ensures
        captcha_verdict(
            captcha_issued(store, id, code, issued),
            Some(id),
            Some(answer),
            now,
        ).1 is Ok <==> outside::uppercase_text(answer) == code,
{
}

/// An answer to one captcha leaves every other captcha as it was.
pub proof fn other_captchas_are_untouched(
    store: Map<Seq<char>, CaptchaSessionView>,
    id: Option<Seq<char>>,
    code: Option<Seq<char>>,
    now: int,
    other: Seq<char>,
)
    requires
        id != Some(other),
    ensures
        ({
            let after = captcha_verdict(store, id, code, now).0;
            &&& after.contains_key(other) == store.contains_key(other)
            &&& store.contains_key(other) ==> after[other] == store[other]
        }),
{
}

/// Whether a captcha passes does not depend on when others were dropped: dropping the
/// ones that are past their time never lets an answer pass that would not have.
pub proof fn purging_never_lets_an_answer_pass(
    store: Map<Seq<char>, CaptchaSessionView>,
    id: Option<Seq<char>>,
    code: Option<Seq<char>>,
    purged: int,
    now: int,
)
    ensures
        captcha_verdict(fresh_ones(store, purged), id, code, now).1 is Ok ==> captcha_verdict(
            store,
            id,
            code,
            now,
        ).1 is Ok,
{
}

} // verus!
