//! The tables of the dashboard: bound accounts, users, login tokens and
//! messages, and the operations on them.

use vstd::prelude::*;

use crate::{model, outside, text};

verus! {

/// A bound chat account: whom it belongs to and how to reach it.
#[derive(Debug)]
pub struct Session {
    pub user_id: String,
    pub bot_token: String,
    pub route_tag: Option<String>,
    pub context_token: String,
    pub updates_buf: String,
}

/// The plain value of a [`Session`].
pub struct SessionView {
    pub user_id: Seq<char>,
    pub bot_token: Seq<char>,
    pub route_tag: Option<Seq<char>>,
    pub context_token: Seq<char>,
    pub updates_buf: Seq<char>,
}

impl View for Session {
    type V = SessionView;

    open spec fn view(&self) -> SessionView {
        SessionView {
            user_id: self.user_id@,
            bot_token: self.bot_token@,
            route_tag: self.route_tag.deep_view(),
            context_token: self.context_token@,
            updates_buf: self.updates_buf@,
        }
    }
}

impl DeepView for Session {
    type V = SessionView;

    open spec fn deep_view(&self) -> SessionView {
        self@
    }
}

impl Clone for Session {
    fn clone(&self) -> (r: Self)
        ensures
            r == *self,
    {
        Session {
            user_id: self.user_id.clone(),
            bot_token: self.bot_token.clone(),
            route_tag: text::copy_option(&self.route_tag),
            context_token: self.context_token.clone(),
            updates_buf: self.updates_buf.clone(),
        }
    }
}

/// A user of the dashboard, without the password.
#[derive(Debug)]
pub struct User {
    pub id: i64,
    pub username: String,
    pub role: String,
    pub created_at: String,
}

/// The plain value of a [`User`].
pub struct UserView {
    pub id: int,
    pub username: Seq<char>,
    pub role: Seq<char>,
    pub created_at: Seq<char>,
}

impl View for User {
    type V = UserView;

    open spec fn view(&self) -> UserView {
        UserView {
            id: self.id as int,
            username: self.username@,
            role: self.role@,
            created_at: self.created_at@,
        }
    }
}

impl DeepView for User {
    type V = UserView;

    open spec fn deep_view(&self) -> UserView {
        self@
    }
}

impl Clone for User {
    fn clone(&self) -> (r: Self)
        ensures
            r == *self,
    {
        User {
            id: self.id,
            username: self.username.clone(),
            role: self.role.clone(),
            created_at: self.created_at.clone(),
        }
    }
}

/// A row of the user table.
#[derive(Debug)]
pub struct UserRow {
    pub id: i64,
    pub username: String,
    pub password: String,
    pub created_at: String,
    pub role: String,
}

/// The plain value of a [`UserRow`].
pub struct UserRowView {
    pub id: int,
    pub username: Seq<char>,
    pub password: Seq<char>,
    pub created_at: Seq<char>,
    pub role: Seq<char>,
}

impl View for UserRow {
    type V = UserRowView;

    open spec fn view(&self) -> UserRowView {
        UserRowView {
            id: self.id as int,
            username: self.username@,
            password: self.password@,
            created_at: self.created_at@,
            role: self.role@,
        }
    }
}

impl DeepView for UserRow {
    type V = UserRowView;

    open spec fn deep_view(&self) -> UserRowView {
        self@
    }
}

impl Clone for UserRow {
    fn clone(&self) -> (r: Self)
        ensures
            r == *self,
    {
        UserRow {
            id: self.id,
            username: self.username.clone(),
            password: self.password.clone(),
            created_at: self.created_at.clone(),
            role: self.role.clone(),
        }
    }
}

/// A row of the table of login tokens.
#[derive(Debug)]
pub struct AuthToken {
    pub token: String,
    pub user_id: i64,
    pub created_at: String,
}

/// The plain value of an [`AuthToken`].
pub struct AuthTokenView {
    pub token: Seq<char>,
    pub user_id: int,
    pub created_at: Seq<char>,
}

impl View for AuthToken {
    type V = AuthTokenView;

    open spec fn view(&self) -> AuthTokenView {
        AuthTokenView {
            token: self.token@,
            user_id: self.user_id as int,
            created_at: self.created_at@,
        }
    }
}

impl DeepView for AuthToken {
    type V = AuthTokenView;

    open spec fn deep_view(&self) -> AuthTokenView {
        self@
    }
}

impl Clone for AuthToken {
    fn clone(&self) -> (r: Self)
        ensures
            r == *self,
    {
        AuthToken {
            token: self.token.clone(),
            user_id: self.user_id,
            created_at: self.created_at.clone(),
        }
    }
}

/// A stored message.
#[derive(Debug)]
pub struct Message {
    pub id: i64,
    pub wechat_user_id: String,
    pub direction: String,
    pub content: String,
    pub msg_type: String,
    pub raw_json: String,
    pub created_at: String,
}

/// The plain value of a [`Message`].
pub struct MessageView {
    pub id: int,
    pub wechat_user_id: Seq<char>,
    pub direction: Seq<char>,
    pub content: Seq<char>,
    pub msg_type: Seq<char>,
    pub raw_json: Seq<char>,
    pub created_at: Seq<char>,
}

impl View for Message {
    type V = MessageView;

    open spec fn view(&self) -> MessageView {
        MessageView {
            id: self.id as int,
            wechat_user_id: self.wechat_user_id@,
            direction: self.direction@,
            content: self.content@,
            msg_type: self.msg_type@,
            raw_json: self.raw_json@,
            created_at: self.created_at@,
        }
    }
}

impl DeepView for Message {
    type V = MessageView;

    open spec fn deep_view(&self) -> MessageView {
        self@
    }
}

impl Clone for Message {
    fn clone(&self) -> (r: Self)
        ensures
            r == *self,
    {
        Message {
            id: self.id,
            wechat_user_id: self.wechat_user_id.clone(),
            direction: self.direction.clone(),
            content: self.content.clone(),
            msg_type: self.msg_type.clone(),
            raw_json: self.raw_json.clone(),
            created_at: self.created_at.clone(),
        }
    }
}

/// Why an operation on the tables failed.
#[derive(Debug)]
pub enum DbError {
    /// The storage could not be reached; the text says why.
    Storage(String),
    /// A value of the named column is taken already.
    Unique(String),
    /// A row refers to a user that does not exist.
    ForeignKey,
    /// Every row number has been used.
    Full,
    /// The password hashing failed; the text says why.
    Password(String),
}

/// The plain value of a [`DbError`].
pub enum DbErrorView {
    Storage(Seq<char>),
    Unique(Seq<char>),
    ForeignKey,
    Full,
    Password(Seq<char>),
}

impl View for DbError {
    type V = DbErrorView;

    open spec fn view(&self) -> DbErrorView {
        match self {
            DbError::Storage(m) => DbErrorView::Storage(m@),
            DbError::Unique(c) => DbErrorView::Unique(c@),
            DbError::ForeignKey => DbErrorView::ForeignKey,
            DbError::Full => DbErrorView::Full,
            DbError::Password(m) => DbErrorView::Password(m@),
        }
    }
}

impl DeepView for DbError {
    type V = DbErrorView;

    open spec fn deep_view(&self) -> DbErrorView {
        self@
    }
}

impl DbErrorView {
    /// The text that is shown for the error.
    pub open spec fn text(self) -> Seq<char> {
        match self {
            DbErrorView::Storage(m) => m,
            DbErrorView::Unique(c) => "UNIQUE constraint failed: "@ + c,
            DbErrorView::ForeignKey => "FOREIGN KEY constraint failed"@,
            DbErrorView::Full => "database or disk is full"@,
            DbErrorView::Password(m) => m,
        }
    }
}

impl DbError {
    /// The text that is shown for the error.
    pub fn message(&self) -> (r: String)
        ensures
            r@ == self@.text(),
    {
        match self {
            DbError::Storage(m) => m.clone(),
            DbError::Unique(c) => "UNIQUE constraint failed: ".to_owned().concat(c.as_str()),
            DbError::ForeignKey => "FOREIGN KEY constraint failed".to_owned(),
            DbError::Full => "database or disk is full".to_owned(),
            DbError::Password(m) => m.clone(),
        }
    }
}

/// The tables as they stand in the storage at one moment. Where the storage
/// could not be reached, `fault` holds the reason, and every operation reports
/// it and changes nothing.
#[derive(Debug)]
pub struct Db {
    pub sessions: Vec<Session>,
    pub users: Vec<UserRow>,
    pub tokens: Vec<AuthToken>,
    pub messages: Vec<Message>,
    /// The largest number that a user ever had.
    pub last_user_id: i64,
    /// The largest number that a message ever had.
    pub last_message_id: i64,
    pub fault: Option<String>,
}

/// The plain value of a [`Db`]. Rows stand in the order in which they were added.
#[verifier::ext_equal]
pub struct DbView {
    pub sessions: Seq<SessionView>,
    pub users: Seq<UserRowView>,
    pub tokens: Seq<AuthTokenView>,
    pub messages: Seq<MessageView>,
    pub last_user_id: int,
    pub last_message_id: int,
    pub fault: Option<Seq<char>>,
}

impl View for Db {
    type V = DbView;

    open spec fn view(&self) -> DbView {
        DbView {
            sessions: self.sessions.deep_view(),
            users: self.users.deep_view(),
            tokens: self.tokens.deep_view(),
            messages: self.messages.deep_view(),
            last_user_id: self.last_user_id as int,
            last_message_id: self.last_message_id as int,
            fault: self.fault.deep_view(),
        }
    }
}

// The rows that an operation selects.

pub open spec fn of_account(user_id: Seq<char>) -> spec_fn(SessionView) -> bool {
    |s: SessionView| s.user_id == user_id
}

pub open spec fn with_id(id: int) -> spec_fn(UserRowView) -> bool {
    |u: UserRowView| u.id == id
}

pub open spec fn with_name(username: Seq<char>) -> spec_fn(UserRowView) -> bool {
    |u: UserRowView| u.username == username
}

pub open spec fn with_role(role: Seq<char>) -> spec_fn(UserRowView) -> bool {
    |u: UserRowView| u.role == role
}

pub open spec fn with_token(token: Seq<char>) -> spec_fn(AuthTokenView) -> bool {
    |t: AuthTokenView| t.token == token
}

pub open spec fn about_account(user_id: Option<Seq<char>>) -> spec_fn(MessageView) -> bool {
    |m: MessageView| user_id matches Some(u) ==> m.wechat_user_id == u
}

impl UserRowView {
    /// The row without the password.
    pub open spec fn user(self) -> UserView {
        UserView {
            id: self.id,
            username: self.username,
            role: self.role,
            created_at: self.created_at,
        }
    }
}

/// The rows that a query with `LIMIT limit OFFSET offset` keeps: a negative limit
/// is none, a negative offset is zero.
pub open spec fn window<T>(rows: Seq<T>, limit: int, offset: int) -> Seq<T> {
    let n = rows.len() as int;
    let from = if offset < 0 {
        0
    } else if offset < n {
        offset
    } else {
        n
    };
    let to = if limit < 0 || n - from < limit {
        n
    } else {
        from + limit
    };
    rows.subrange(from, to)
}

/// Row numbers grow from the first row to the last, and none is past `last`.
pub open spec fn ascending(ids: Seq<int>, last: int) -> bool {
    &&& forall|i: int, j: int| 0 <= i < j < ids.len() ==> ids[i] < ids[j]
    &&& forall|i: int| 0 <= i < ids.len() ==> 1 <= #[trigger] ids[i] <= last
    &&& 0 <= last
}

impl DbView {
    /// The tables number their rows as the storage does.
    pub open spec fn wf(self) -> bool {
        &&& ascending(self.users.map_values(|u: UserRowView| u.id), self.last_user_id)
        &&& ascending(self.messages.map_values(|m: MessageView| m.id), self.last_message_id)
    }

    /// What an operation that would give `v` gives: the fault of the storage comes
    /// first.
    pub open spec fn guard<T>(self, v: T) -> Result<T, DbErrorView> {
        match self.fault {
            Some(m) => Err(DbErrorView::Storage(m)),
            None => Ok(v),
        }
    }

    pub open spec fn session(self, user_id: Seq<char>) -> Option<SessionView> {
        model::first_where(self.sessions, of_account(user_id))
    }

    pub open spec fn user_row(self, username: Seq<char>) -> Option<UserRowView> {
        model::first_where(self.users, with_name(username))
    }

    /// The tables after a context token was saved for an account: a known account
    /// gets the new token, key and tag and keeps its cursor; an unknown one is
    /// added with an empty cursor.
    pub open spec fn save_context_token(
        self,
        user_id: Seq<char>,
        bot_token: Seq<char>,
        route_tag: Option<Seq<char>>,
        context_token: Seq<char>,
    ) -> DbView {
        if self.fault is Some {
            self
        } else if model::any_where(self.sessions, of_account(user_id)) {
            DbView {
                sessions: self.sessions.map_values(
                    |s: SessionView|
                        if s.user_id == user_id {
                            SessionView { bot_token, route_tag, context_token, ..s }
                        } else {
                            s
                        },
                ),
                ..self
            }
        } else {
            DbView {
                sessions: self.sessions.push(
                    SessionView {
                        user_id,
                        bot_token,
                        route_tag,
                        context_token,
                        updates_buf: Seq::empty(),
                    },
                ),
                ..self
            }
        }
    }

    /// The tables after the cursor of an account was saved; an unknown account is
    /// not added.
    pub open spec fn save_updates_buf(self, user_id: Seq<char>, updates_buf: Seq<char>) -> DbView {
        if self.fault is Some {
            self
        } else {
            DbView {
                sessions: self.sessions.map_values(
                    |s: SessionView|
                        if s.user_id == user_id {
                            SessionView { updates_buf, ..s }
                        } else {
                            s
                        },
                ),
                ..self
            }
        }
    }

    /// The role of a user who joins now: the first one is the administrator.
    pub open spec fn next_role(self) -> Seq<char> {
        if self.users.len() == 0 {
            "admin"@
        } else {
            "user"@
        }
    }

    /// The tables after a user with the given password hash joined, and what is
    /// reported.
    pub open spec fn insert_user(
        self,
        username: Seq<char>,
        hash: Seq<char>,
        now: Seq<char>,
    ) -> (DbView, Result<UserView, DbErrorView>) {
        if let Some(m) = self.fault {
            (self, Err(DbErrorView::Storage(m)))
        } else if self.last_user_id >= i64::MAX {
            (self, Err(DbErrorView::Full))
        } else if model::any_where(self.users, with_name(username)) {
            (self, Err(DbErrorView::Unique("users.username"@)))
        } else {
            let row = UserRowView {
                id: self.last_user_id + 1,
                username,
                password: hash,
                created_at: now,
                role: self.next_role(),
            };
            (
                DbView {
                    users: self.users.push(row),
                    last_user_id: self.last_user_id + 1,
                    ..self
                },
                Ok(row.user()),
            )
        }
    }

    /// The tables after a user joined whose password was hashed with the given outcome,
    /// and what is reported.
    pub open spec fn create_user(
        self,
        username: Seq<char>,
        hashed: Result<Seq<char>, Seq<char>>,
        now: Seq<char>,
    ) -> (DbView, Result<UserView, DbErrorView>) {
        match hashed {
            Ok(hash) => self.insert_user(username, hash, now),
            Err(m) => (self, Err(DbErrorView::Password(m))),
        }
    }

    /// The user whose name and password these are.
    pub open spec fn verify_user(self, username: Seq<char>, password: Seq<char>) -> Result<
        Option<UserView>,
        DbErrorView,
    > {
        if let Some(m) = self.fault {
            Err(DbErrorView::Storage(m))
        } else {
            match self.user_row(username) {
                None => Ok(None),
                Some(row) => if_accepted(
                    row.user(),
                    outside::bcrypt_verdict(password, row.password),
                ),
            }
        }
    }

    pub open spec fn user_by_id(self, id: int) -> Option<UserView> {
        match model::first_where(self.users, with_id(id)) {
            Some(row) => Some(row.user()),
            None => None,
        }
    }

    pub open spec fn user_by_name(self, username: Seq<char>) -> Option<UserView> {
        match self.user_row(username) {
            Some(row) => Some(row.user()),
            None => None,
        }
    }

    /// The user who logged in with the given token.
    pub open spec fn token_owner(self, token: Seq<char>) -> Option<UserView> {
        match model::first_where(self.tokens, with_token(token)) {
            Some(t) => self.user_by_id(t.user_id),
            None => None,
        }
    }

    /// The tables after a login token was added, and what is reported.
    pub open spec fn insert_auth_token(
        self,
        token: Seq<char>,
        user_id: int,
        now: Seq<char>,
    ) -> (DbView, Result<(), DbErrorView>) {
        if let Some(m) = self.fault {
            (self, Err(DbErrorView::Storage(m)))
        } else if model::any_where(self.tokens, with_token(token)) {
            (self, Err(DbErrorView::Unique("auth_tokens.token"@)))
        } else if !model::any_where(self.users, with_id(user_id)) {
            (self, Err(DbErrorView::ForeignKey))
        } else {
            (
                DbView {
                    tokens: self.tokens.push(AuthTokenView { token, user_id, created_at: now }),
                    ..self
                },
                Ok(()),
            )
        }
    }

    /// The tables after a user got another password hash.
    pub open spec fn set_password(self, username: Seq<char>, hash: Seq<char>) -> DbView {
        if self.fault is Some {
            self
        } else {
            DbView {
                users: self.users.map_values(
                    |u: UserRowView|
                        if u.username == username {
                            UserRowView { password: hash, ..u }
                        } else {
                            u
                        },
                ),
                ..self
            }
        }
    }

    /// The tables after a user got a password that was hashed with the given outcome, and
    /// what is reported.
    pub open spec fn update_password(
        self,
        username: Seq<char>,
        hashed: Result<Seq<char>, Seq<char>>,
    ) -> (DbView, Result<(), DbErrorView>) {
        match hashed {
            Ok(hash) => (self.set_password(username, hash), self.guard(())),
            Err(m) => (self, Err(DbErrorView::Password(m))),
        }
    }

    /// The tables after a message was added, and what is reported.
    pub open spec fn insert_message(
        self,
        wechat_user_id: Seq<char>,
        direction: Seq<char>,
        content: Seq<char>,
        msg_type: Seq<char>,
        raw_json: Seq<char>,
        now: Seq<char>,
    ) -> (DbView, Result<(), DbErrorView>) {
        if let Some(m) = self.fault {
            (self, Err(DbErrorView::Storage(m)))
        } else if self.last_message_id >= i64::MAX {
            (self, Err(DbErrorView::Full))
        } else {
            let row = MessageView {
                id: self.last_message_id + 1,
                wechat_user_id,
                direction,
                content,
                msg_type,
                raw_json,
                created_at: now,
            };
            (
                DbView {
                    messages: self.messages.push(row),
                    last_message_id: self.last_message_id + 1,
                    ..self
                },
                Ok(()),
            )
        }
    }

    /// The messages of one account, or of all, from the newest to the oldest.
    pub open spec fn newest_first(self, user_id: Option<Seq<char>>) -> Seq<MessageView> {
        self.messages.filter(about_account(user_id)).reverse()
    }

    /// One page of the messages, and how many there are in all.
    pub open spec fn message_page(
        self,
        user_id: Option<Seq<char>>,
        page: int,
        page_size: int,
    ) -> (Seq<MessageView>, int) {
        let rows = self.newest_first(user_id);
        (window(rows, page_size, (page - 1) * page_size), rows.len() as int)
    }

    /// The tables after the first user was made the administrator, unless there is
    /// one already.
    pub open spec fn with_admin(self) -> DbView {
        if self.fault is Some || self.users.len() == 0 || model::any_where(
            self.users,
            with_role("admin"@),
        ) {
            self
        } else {
            DbView {
                users: self.users.update(0, UserRowView { role: "admin"@, ..self.users[0] }),
                ..self
            }
        }
    }
}

/// Whether the first row number of `page` is one that a 64-bit offset can hold.
pub open spec fn page_fits(page: int, page_size: int) -> bool {
    &&& i64::MIN <= page - 1
    &&& i64::MIN <= (page - 1) * page_size <= i64::MAX
}

impl Db {
    /// Empty tables.
    pub fn new() -> (r: Db)
        ensures
            r@ == (DbView {
                sessions: Seq::empty(),
                users: Seq::empty(),
                tokens: Seq::empty(),
                messages: Seq::empty(),
                last_user_id: 0,
                last_message_id: 0,
                fault: None,
            }),
            r@.wf(),
    {
        let r = Db {
            sessions: Vec::new(),
            users: Vec::new(),
            tokens: Vec::new(),
            messages: Vec::new(),
            last_user_id: 0,
            last_message_id: 0,
            fault: None,
        };
        r
    }

    /// Tables that could not be read, for the given reason.
    pub fn failed(reason: String) -> (r: Db)
        ensures
            r@ == (DbView {
                sessions: Seq::empty(),
                users: Seq::empty(),
                tokens: Seq::empty(),
                messages: Seq::empty(),
                last_user_id: 0,
                last_message_id: 0,
                fault: Some(reason@),
            }),
            r@.wf(),
    {
        let mut r: Db = Db::new();
        r.fault = Some(reason);
        r
    }

    /// Tells whether the tables number their rows as the storage does.
    pub fn is_well_formed(&self) -> (r: bool)
        ensures
            r == self@.wf(),
    {
        let ghost ids = self@.users.map_values(|u: UserRowView| u.id);
        if self.last_user_id < 0 || self.last_message_id < 0 {
            return false;
        }
        let mut i: usize = 0;
        let mut last: i64 = 0;
        while i < self.users.len()
            invariant
                i <= self.users@.len(),
                ids == self@.users.map_values(|u: UserRowView| u.id),
                0 <= last <= self.last_user_id,
                last == (if i == 0 { 0 } else { ids[i - 1] }),
                forall|a: int, b: int| 0 <= a < b < i ==> ids[a] < ids[b],
                forall|a: int| 0 <= a < i ==> 1 <= #[trigger] ids[a] <= last,
            decreases self.users@.len() - i,
        {
            let id: i64 = self.users[i].id;
            assert(ids[i as int] == id);
            if id <= last || id > self.last_user_id {
                proof {
                    if i > 0 {
                        assert(ids[i - 1] == last);
                    }
                }
                return false;
            }
            last = id;
            i = i + 1;
        }
        let ghost ids2 = self@.messages.map_values(|m: MessageView| m.id);
        let mut i: usize = 0;
        let mut last: i64 = 0;
        while i < self.messages.len()
            invariant
                i <= self.messages@.len(),
                ids2 == self@.messages.map_values(|m: MessageView| m.id),
                0 <= last <= self.last_message_id,
                last == (if i == 0 { 0 } else { ids2[i - 1] }),
                forall|a: int, b: int| 0 <= a < b < i ==> ids2[a] < ids2[b],
                forall|a: int| 0 <= a < i ==> 1 <= #[trigger] ids2[a] <= last,
            decreases self.messages@.len() - i,
        {
            let id: i64 = self.messages[i].id;
            assert(ids2[i as int] == id);
            if id <= last || id > self.last_message_id {
                proof {
                    if i > 0 {
                        assert(ids2[i - 1] == last);
                    }
                }
                return false;
            }
            last = id;
            i = i + 1;
        }
        true
    }

    fn check_fault(&self) -> (r: Result<(), DbError>)
        ensures
            model::outcome(r) == self@.guard(()),
    {
        match &self.fault {
            Some(m) => Err(DbError::Storage(m.clone())),
            None => Ok(()),
        }
    }

    fn session_index(&self, user_id: &str) -> (r: Option<usize>)
        ensures
            match r {
                Some(i) => i < self.sessions@.len() && self@.session(user_id@) == Some(
                    self.sessions@[i as int]@,
                ) && model::any_where(self@.sessions, of_account(user_id@)),
                None => self@.session(user_id@) is None && !model::any_where(
                    self@.sessions,
                    of_account(user_id@),
                ),
            },
    {
        let ghost p = of_account(user_id@);
        let mut i: usize = 0;
        while i < self.sessions.len()
            invariant
                i <= self.sessions@.len(),
                p == of_account(user_id@),
                forall|j: int| 0 <= j < i ==> !p(#[trigger] self@.sessions[j]),
            decreases self.sessions@.len() - i,
        {
            if text::same(self.sessions[i].user_id.as_str(), user_id) {
                proof {
                    model::first_where_is(self@.sessions, p, i as int);
                    model::first_where_finds(self@.sessions, p);
                }
                return Some(i);
            }
            i = i + 1;
        }
        proof {
            model::first_where_finds(self@.sessions, p);
        }
        None
    }

    fn user_index(&self, username: &str) -> (r: Option<usize>)
        ensures
            match r {
                Some(i) => i < self.users@.len() && self@.user_row(username@) == Some(
                    self.users@[i as int]@,
                ) && model::any_where(self@.users, with_name(username@)),
                None => self@.user_row(username@) is None && !model::any_where(
                    self@.users,
                    with_name(username@),
                ),
            },
    {
        let ghost p = with_name(username@);
        let mut i: usize = 0;
        while i < self.users.len()
            invariant
                i <= self.users@.len(),
                p == with_name(username@),
                forall|j: int| 0 <= j < i ==> !p(#[trigger] self@.users[j]),
            decreases self.users@.len() - i,
        {
            if text::same(self.users[i].username.as_str(), username) {
                proof {
                    model::first_where_is(self@.users, p, i as int);
                    model::first_where_finds(self@.users, p);
                }
                return Some(i);
            }
            i = i + 1;
        }
        proof {
            model::first_where_finds(self@.users, p);
        }
        None
    }

    fn user_id_index(&self, id: i64) -> (r: Option<usize>)
        ensures
            match r {
                Some(i) => i < self.users@.len() && model::first_where(
                    self@.users,
                    with_id(id as int),
                ) == Some(self.users@[i as int]@) && model::any_where(
                    self@.users,
                    with_id(id as int),
                ),
                None => model::first_where(self@.users, with_id(id as int)) is None
                    && !model::any_where(self@.users, with_id(id as int)),
            },
    {
        let ghost p = with_id(id as int);
        let mut i: usize = 0;
        while i < self.users.len()
            invariant
                i <= self.users@.len(),
                p == with_id(id as int),
                forall|j: int| 0 <= j < i ==> !p(#[trigger] self@.users[j]),
            decreases self.users@.len() - i,
        {
            if self.users[i].id == id {
                proof {
                    model::first_where_is(self@.users, p, i as int);
                    model::first_where_finds(self@.users, p);
                }
                return Some(i);
            }
            i = i + 1;
        }
        proof {
            model::first_where_finds(self@.users, p);
        }
        None
    }

    fn token_index(&self, token: &str) -> (r: Option<usize>)
        ensures
            match r {
                Some(i) => i < self.tokens@.len() && model::first_where(
                    self@.tokens,
                    with_token(token@),
                ) == Some(self.tokens@[i as int]@) && model::any_where(
                    self@.tokens,
                    with_token(token@),
                ),
                None => model::first_where(self@.tokens, with_token(token@)) is None
                    && !model::any_where(self@.tokens, with_token(token@)),
            },
    {
        let ghost p = with_token(token@);
        let mut i: usize = 0;
        while i < self.tokens.len()
            invariant
                i <= self.tokens@.len(),
                p == with_token(token@),
                forall|j: int| 0 <= j < i ==> !p(#[trigger] self@.tokens[j]),
            decreases self.tokens@.len() - i,
        {
            if text::same(self.tokens[i].token.as_str(), token) {
                proof {
                    model::first_where_is(self@.tokens, p, i as int);
                    model::first_where_finds(self@.tokens, p);
                }
                return Some(i);
            }
            i = i + 1;
        }
        proof {
            model::first_where_finds(self@.tokens, p);
        }
        None
    }
}

impl UserRow {
    fn user(&self) -> (r: User)
        ensures
            r@ == self@.user(),
    {
        User {
            id: self.id,
            username: self.username.clone(),
            role: self.role.clone(),
            created_at: self.created_at.clone(),
        }
    }
}

/// Gives the account with the given number, if it is known.
pub fn load_session(db: &Db, user_id: &str) -> (r: Result<Option<Session>, DbError>)
    ensures
        model::outcome(r) == db@.guard(db@.session(user_id@)),
{
    db.check_fault()?;
    match db.session_index(user_id) {
        Some(i) => Ok(Some(db.sessions[i].clone())),
        None => Ok(None),
    }
}

/// Saves the context token of an account, and adds the account where it is not
/// known.
pub fn save_context_token(
    db: &mut Db,
    user_id: &str,
    bot_token: &str,
    route_tag: Option<&str>,
    context_token: &str,
) -> (r: Result<(), DbError>)
    ensures
        final(db)@ == old(db)@.save_context_token(
            user_id@,
            bot_token@,
            route_tag.deep_view(),
            context_token@,
        ),
        model::outcome(r) == old(db)@.guard(()),
{
    db.check_fault()?;
    match db.session_index(user_id) {
        Some(_) => {
            let mut i: usize = 0;
            let ghost before = old(db)@;
            let ghost after = before.save_context_token(
                user_id@,
                bot_token@,
                route_tag.deep_view(),
                context_token@,
            );
            while i < db.sessions.len()
                invariant
                    i <= db.sessions@.len(),
                    before == old(db)@,
                    after == before.save_context_token(
                        user_id@,
                        bot_token@,
                        route_tag.deep_view(),
                        context_token@,
                    ),
                    model::any_where(before.sessions, of_account(user_id@)),
                    before.fault is None,
                    db@ == (DbView { sessions: db@.sessions, ..before }),
                    db@.sessions.len() == before.sessions.len(),
                    forall|j: int| 0 <= j < i ==> db@.sessions[j] == after.sessions[j],
                    forall|j: int|
                        i <= j < before.sessions.len() ==> db@.sessions[j] == before.sessions[j],
                decreases db.sessions@.len() - i,
            {
                assert(db@.sessions[i as int] == before.sessions[i as int]);
                if text::same(db.sessions[i].user_id.as_str(), user_id) {
                    let row = Session {
                        user_id: db.sessions[i].user_id.clone(),
                        bot_token: bot_token.to_owned(),
                        route_tag: text::own_option(route_tag),
                        context_token: context_token.to_owned(),
                        updates_buf: db.sessions[i].updates_buf.clone(),
                    };
                    db.sessions.set(i, row);
                }
                i = i + 1;
            }
            assert(db@.sessions =~= after.sessions);
        },
        None => {
            db.sessions.push(
                Session {
                    user_id: user_id.to_owned(),
                    bot_token: bot_token.to_owned(),
                    route_tag: text::own_option(route_tag),
                    context_token: context_token.to_owned(),
                    updates_buf: String::new(),
                },
            );
            assert(db@.sessions =~= old(db)@.save_context_token(
                user_id@,
                bot_token@,
                route_tag.deep_view(),
                context_token@,
            ).sessions);
        },
    }
    Ok(())
}

/// Saves the cursor of an account that is known.
pub fn save_updates_buf(db: &mut Db, user_id: &str, updates_buf: &str) -> (r: Result<(), DbError>)
    ensures
        final(db)@ == old(db)@.save_updates_buf(user_id@, updates_buf@),
        model::outcome(r) == old(db)@.guard(()),
{
    db.check_fault()?;
    let mut i: usize = 0;
    let ghost before = old(db)@;
    let ghost after = before.save_updates_buf(user_id@, updates_buf@);
    while i < db.sessions.len()
        invariant
            i <= db.sessions@.len(),
            before == old(db)@,
            after == before.save_updates_buf(user_id@, updates_buf@),
            before.fault is None,
            db@ == (DbView { sessions: db@.sessions, ..before }),
            db@.sessions.len() == before.sessions.len(),
            forall|j: int| 0 <= j < i ==> db@.sessions[j] == after.sessions[j],
            forall|j: int| i <= j < before.sessions.len() ==> db@.sessions[j]
                == before.sessions[j],
        decreases db.sessions@.len() - i,
    {
        assert(db@.sessions[i as int] == before.sessions[i as int]);
        if text::same(db.sessions[i].user_id.as_str(), user_id) {
            let row = Session {
                user_id: db.sessions[i].user_id.clone(),
                bot_token: db.sessions[i].bot_token.clone(),
                route_tag: text::copy_option(&db.sessions[i].route_tag),
                context_token: db.sessions[i].context_token.clone(),
                updates_buf: updates_buf.to_owned(),
            };
            db.sessions.set(i, row);
        }
        i = i + 1;
    }
    assert(db@.sessions =~= after.sessions);
    Ok(())
}

/// Gives all accounts, in the order in which they were added.
pub fn list_wechat_sessions(db: &Db) -> (r: Result<Vec<Session>, DbError>)
    ensures
        model::outcome(r) == db@.guard(db@.sessions),
{
    db.check_fault()?;
    let mut out: Vec<Session> = Vec::new();
    let mut i: usize = 0;
    while i < db.sessions.len()
        invariant
            i <= db.sessions@.len(),
            out@.len() == i,
            forall|j: int| 0 <= j < i ==> #[trigger] out@[j] == db.sessions@[j],
        decreases db.sessions@.len() - i,
    {
        out.push(db.sessions[i].clone());
        i = i + 1;
    }
    assert(out.deep_view() =~= db@.sessions);
    Ok(out)
}

/// Adds a user with the given password hash.
pub fn insert_user(db: &mut Db, username: &str, hash: &str, now: &str) -> (r: Result<User, DbError>)
    ensures
        (final(db)@, model::outcome(r)) == old(db)@.insert_user(username@, hash@, now@),
{
    db.check_fault()?;
    if db.last_user_id == i64::MAX {
        return Err(DbError::Full);
    }
    if db.user_index(username).is_some() {
        return Err(DbError::Unique("users.username".to_owned()));
    }
    let role: String = if db.users.len() == 0 {
        "admin".to_owned()
    } else {
        "user".to_owned()
    };
    let row = UserRow {
        id: db.last_user_id + 1,
        username: username.to_owned(),
        password: hash.to_owned(),
        created_at: now.to_owned(),
        role,
    };
    let user: User = row.user();
    db.last_user_id = row.id;
    db.users.push(row);
    assert(db@.users =~= old(db)@.insert_user(username@, hash@, now@).0.users);
    Ok(user)
}

/// Adds a user whose password was hashed with the given outcome.
pub fn create_user_with(
    db: &mut Db,
    username: &str,
    hashed: Result<String, String>,
    now: &str,
) -> (r: Result<User, DbError>)
    ensures
        (final(db)@, model::outcome(r)) == old(db)@.create_user(
            username@,
            model::outcome(hashed),
            now@,
        ),
{
    match hashed {
        Ok(hash) => insert_user(db, username, hash.as_str(), now),
        Err(m) => Err(DbError::Password(m)),
    }
}

/// An outcome of hashing a password: a hash that fits it, or an error.
pub open spec fn hash_fits(password: Seq<char>, hashed: Result<Seq<char>, Seq<char>>) -> bool {
    hashed matches Ok(hash) ==> outside::bcrypt_accepts(password, hash)
}

/// What may have come of creating a user at some moment: the password was hashed with
/// some outcome, and the user was created accordingly.
pub open spec fn user_created(
    before: DbView,
    after: DbView,
    username: Seq<char>,
    password: Seq<char>,
    result: Result<UserView, DbErrorView>,
) -> bool {
    exists|hashed: Result<Seq<char>, Seq<char>>, now: Seq<char>|
        hash_fits(password, hashed) && (after, result) == #[trigger] before.create_user(
            username,
            hashed,
            now,
        )
}

/// Adds a user. The first user becomes the administrator.
pub fn create_user(db: &mut Db, username: &str, password: &str) -> (r: Result<User, DbError>)
    ensures
        user_created(old(db)@, final(db)@, username@, password@, model::outcome(r)),
{
    let hashed: Result<String, String> = outside::bcrypt_hash(password);
    let now: String = outside::now_rfc3339();
    assert(hash_fits(password@, model::outcome(hashed)));
    create_user_with(db, username, hashed, now.as_str())
}

/// The user, if the verdict on their password is that it is theirs.
pub open spec fn if_accepted(user: UserView, verdict: Result<bool, Seq<char>>) -> Result<
    Option<UserView>,
    DbErrorView,
> {
    match verdict {
        Ok(true) => Ok(Some(user)),
        Ok(false) => Ok(None),
        Err(m) => Err(DbErrorView::Password(m)),
    }
}

/// Gives the user, if the verdict on their password is that it is theirs.
pub fn user_if_accepted(user: User, verdict: Result<bool, String>) -> (r: Result<
    Option<User>,
    DbError,
>)
    ensures
        model::outcome(r) == if_accepted(user@, model::outcome(verdict)),
{
    match verdict {
        Ok(valid) => {
            if valid {
                Ok(Some(user))
            } else {
                Ok(None)
            }
        },
        Err(m) => Err(DbError::Password(m)),
    }
}

/// Gives the user with the given name, if the password is theirs.
pub fn verify_user(db: &Db, username: &str, password: &str) -> (r: Result<Option<User>, DbError>)
    ensures
        model::outcome(r) == db@.verify_user(username@, password@),
{
    db.check_fault()?;
    match db.user_index(username) {
        Some(i) => user_if_accepted(
            db.users[i].user(),
            outside::bcrypt_verify(password, db.users[i].password.as_str()),
        ),
        None => Ok(None),
    }
}

/// Gives the user with the given number.
pub fn get_user_by_id(db: &Db, user_id: i64) -> (r: Result<Option<User>, DbError>)
    ensures
        model::outcome(r) == db@.guard(db@.user_by_id(user_id as int)),
{
    db.check_fault()?;
    match db.user_id_index(user_id) {
        Some(i) => Ok(Some(db.users[i].user())),
        None => Ok(None),
    }
}

/// Users stand by ascending number.
pub open spec fn by_number(users: Seq<UserView>) -> bool {
    forall|i: int, j: int|
        0 <= i < j < users.len() ==> (#[trigger] users[i]).id < (#[trigger] users[j]).id
}

/// Gives all users by ascending number.
pub fn list_users(db: &Db) -> (r: Result<Vec<User>, DbError>)
    requires
        db@.wf(),
    ensures
        model::outcome(r) == db@.guard(db@.users.map_values(|u: UserRowView| u.user())),
        r matches Ok(users) ==> by_number(users.deep_view()),
{
    db.check_fault()?;
    let mut out: Vec<User> = Vec::new();
    let mut i: usize = 0;
    while i < db.users.len()
        invariant
            i <= db.users@.len(),
            out@.len() == i,
            forall|j: int| 0 <= j < i ==> (#[trigger] out@[j])@ == db@.users[j].user(),
        decreases db.users@.len() - i,
    {
        out.push(db.users[i].user());
        i = i + 1;
    }
    assert(out.deep_view() =~= db@.users.map_values(|u: UserRowView| u.user()));
    proof {
        let ids = db@.users.map_values(|u: UserRowView| u.id);
        assert forall|i: int, j: int| 0 <= i < j < out@.len() implies (
        #[trigger] out.deep_view()[i]).id < (#[trigger] out.deep_view()[j]).id by {
            assert(ids[i] < ids[j]);
        }
    }
    Ok(out)
}

/// Adds the given login token for a user.
pub fn insert_auth_token(db: &mut Db, token: &str, user_id: i64, now: &str) -> (r: Result<
    (),
    DbError,
>)
    ensures
        (final(db)@, model::outcome(r)) == old(db)@.insert_auth_token(token@, user_id as int, now@),
{
    db.check_fault()?;
    if db.token_index(token).is_some() {
        return Err(DbError::Unique("auth_tokens.token".to_owned()));
    }
    if db.user_id_index(user_id).is_none() {
        return Err(DbError::ForeignKey);
    }
    db.tokens.push(
        AuthToken { token: token.to_owned(), user_id, created_at: now.to_owned() },
    );
    assert(db@.tokens =~= old(db)@.insert_auth_token(token@, user_id as int, now@).0.tokens);
    Ok(())
}

/// What may have come of creating a login token at some moment: some random token
/// was inserted, and is reported where that succeeded.
pub open spec fn token_created(
    before: DbView,
    after: DbView,
    user_id: int,
    result: Result<Seq<char>, DbErrorView>,
) -> bool {
    exists|token: Seq<char>, now: Seq<char>|
        {
            &&& outside::is_simple_uuid(token)
            &&& after == (#[trigger] before.insert_auth_token(token, user_id, now)).0
            &&& match before.insert_auth_token(token, user_id, now).1 {
                Ok(_) => result == Ok::<Seq<char>, DbErrorView>(token),
                Err(e) => result == Err::<Seq<char>, DbErrorView>(e),
            }
        }
}

/// Adds a fresh login token for a user and gives it.
pub fn create_auth_token(db: &mut Db, user_id: i64) -> (r: Result<String, DbError>)
    ensures
        token_created(old(db)@, final(db)@, user_id as int, model::outcome(r)),
{
    let token: String = outside::random_uuid();
    let now: String = outside::now_rfc3339();
    match insert_auth_token(db, token.as_str(), user_id, now.as_str()) {
        Ok(_) => Ok(token),
        Err(e) => Err(e),
    }
}

/// Gives the user who holds a login token.
pub fn validate_auth_token(db: &Db, token: &str) -> (r: Result<Option<User>, DbError>)
    ensures
        model::outcome(r) == db@.guard(db@.token_owner(token@)),
{
    db.check_fault()?;
    match db.token_index(token) {
        Some(i) => get_user_by_id(db, db.tokens[i].user_id),
        None => Ok(None),
    }
}

/// Gives the user with the given name.
pub fn get_user_by_username(db: &Db, username: &str) -> (r: Result<Option<User>, DbError>)
    ensures
        model::outcome(r) == db@.guard(db@.user_by_name(username@)),
{
    db.check_fault()?;
    match db.user_index(username) {
        Some(i) => Ok(Some(db.users[i].user())),
        None => Ok(None),
    }
}

/// Replaces the password hash of a user.
pub fn set_password(db: &mut Db, username: &str, hash: &str) -> (r: Result<(), DbError>)
    ensures
        final(db)@ == old(db)@.set_password(username@, hash@),
        model::outcome(r) == old(db)@.guard(()),
{
    db.check_fault()?;
    let mut i: usize = 0;
    let ghost before = old(db)@;
    let ghost after = before.set_password(username@, hash@);
    while i < db.users.len()
        invariant
            i <= db.users@.len(),
            before == old(db)@,
            after == before.set_password(username@, hash@),
            before.fault is None,
            db@ == (DbView { users: db@.users, ..before }),
            db@.users.len() == before.users.len(),
            forall|j: int| 0 <= j < i ==> db@.users[j] == after.users[j],
            forall|j: int| i <= j < before.users.len() ==> db@.users[j] == before.users[j],
        decreases db.users@.len() - i,
    {
        assert(db@.users[i as int] == before.users[i as int]);
        if text::same(db.users[i].username.as_str(), username) {
            let row = UserRow {
                id: db.users[i].id,
                username: db.users[i].username.clone(),
                password: hash.to_owned(),
                created_at: db.users[i].created_at.clone(),
                role: db.users[i].role.clone(),
            };
            db.users.set(i, row);
        }
        i = i + 1;
    }
    assert(db@.users =~= after.users);
    Ok(())
}

/// Gives a user a password that was hashed with the given outcome.
pub fn update_password_with(db: &mut Db, username: &str, hashed: Result<String, String>) -> (r:
    Result<(), DbError>)
    ensures
        (final(db)@, model::outcome(r)) == old(db)@.update_password(
            username@,
            model::outcome(hashed),
        ),
{
    match hashed {
        Ok(hash) => set_password(db, username, hash.as_str()),
        Err(m) => Err(DbError::Password(m)),
    }
}

/// What may have come of giving a user a new password: it was hashed with some outcome,
/// and the hash was replaced accordingly.
pub open spec fn password_updated(
    before: DbView,
    after: DbView,
    username: Seq<char>,
    password: Seq<char>,
    result: Result<(), DbErrorView>,
) -> bool {
    exists|hashed: Result<Seq<char>, Seq<char>>|
        hash_fits(password, hashed) && (after, result) == #[trigger] before.update_password(
            username,
            hashed,
        )
}

/// Gives a user a new password.
pub fn update_password(db: &mut Db, username: &str, new_password: &str) -> (r: Result<(), DbError>)
    ensures
        password_updated(old(db)@, final(db)@, username@, new_password@, model::outcome(r)),
{
    let hashed: Result<String, String> = outside::bcrypt_hash(new_password);
    assert(hash_fits(new_password@, model::outcome(hashed)));
    update_password_with(db, username, hashed)
}

/// Adds a message with the given time.
pub fn insert_message(
    db: &mut Db,
    wechat_user_id: &str,
    direction: &str,
    content: &str,
    msg_type: &str,
    raw_json: &str,
    now: &str,
) -> (r: Result<(), DbError>)
    ensures
        (final(db)@, model::outcome(r)) == old(db)@.insert_message(
            wechat_user_id@,
            direction@,
            content@,
            msg_type@,
            raw_json@,
            now@,
        ),
{
    db.check_fault()?;
    if db.last_message_id == i64::MAX {
        return Err(DbError::Full);
    }
    let row = Message {
        id: db.last_message_id + 1,
        wechat_user_id: wechat_user_id.to_owned(),
        direction: direction.to_owned(),
        content: content.to_owned(),
        msg_type: msg_type.to_owned(),
        raw_json: raw_json.to_owned(),
        created_at: now.to_owned(),
    };
    db.last_message_id = row.id;
    db.messages.push(row);
    assert(db@.messages =~= old(db)@.insert_message(
        wechat_user_id@,
        direction@,
        content@,
        msg_type@,
        raw_json@,
        now@,
    ).0.messages);
    Ok(())
}

/// The message was added at some moment, as far as the tables took it, and
/// `result` is what was reported.
pub open spec fn message_saved(
    before: DbView,
    after: DbView,
    wechat_user_id: Seq<char>,
    direction: Seq<char>,
    content: Seq<char>,
    msg_type: Seq<char>,
    raw_json: Seq<char>,
    result: Result<(), DbErrorView>,
) -> bool {
    exists|now: Seq<char>|
        (after, result) == #[trigger] before.insert_message(
            wechat_user_id,
            direction,
            content,
            msg_type,
            raw_json,
            now,
        )
}

/// Adds a message.
pub fn save_message(
    db: &mut Db,
    wechat_user_id: &str,
    direction: &str,
    content: &str,
    msg_type: &str,
    raw_json: &str,
) -> (r: Result<(), DbError>)
    ensures
        message_saved(
            old(db)@,
            final(db)@,
            wechat_user_id@,
            direction@,
            content@,
            msg_type@,
            raw_json@,
            model::outcome(r),
        ),
{
    let now: String = outside::now_rfc3339();
    insert_message(db, wechat_user_id, direction, content, msg_type, raw_json, now.as_str())
}

proof fn lemma_ascending_len(ids: Seq<int>, last: int, i: int)
    requires
        ascending(ids, last),
        0 <= i < ids.len(),
    ensures
        i + 1 <= ids[i] <= last,
    decreases i,
{
    if i > 0 {
        lemma_ascending_len(ids, last, i - 1);
    }
}

/// Gives the newest messages of an account, or of all: two hundred at most.
pub fn list_messages(db: &Db, wechat_user_id: Option<&str>) -> (r: Result<Vec<Message>, DbError>)
    requires
        db@.wf(),
    ensures
        model::outcome(r) == db@.guard(db@.message_page(wechat_user_id.deep_view(), 1, 200).0),
{
    match list_messages_paginated(db, wechat_user_id, 1, 200) {
        Ok((rows, _)) => Ok(rows),
        Err(e) => Err(e),
    }
}

/// Gives one page of the messages of an account, or of all, from the newest to the
/// oldest, and the number of messages in all.
pub fn list_messages_paginated(
    db: &Db,
    wechat_user_id: Option<&str>,
    page: i64,
    page_size: i64,
) -> (r: Result<(Vec<Message>, i64), DbError>)
    requires
        db@.wf(),
        page_fits(page as int, page_size as int),
    ensures
        match r {
            Ok((rows, total)) => db@.fault is None && (rows.deep_view(), total as int)
                == db@.message_page(wechat_user_id.deep_view(), page as int, page_size as int),
            Err(e) => db@.fault matches Some(m) && e@ == DbErrorView::Storage(m),
        },
{
    db.check_fault()?;
    let offset: i64 = (page - 1) * page_size;
    let ghost p = about_account(wechat_user_id.deep_view());
    let mut chosen: Vec<usize> = Vec::new();
    let mut i: usize = 0;
    proof {
        reveal(Seq::filter);
        assert(db@.messages.take(0).filter(p) =~= Seq::empty());
    }
    while i < db.messages.len()
        invariant
            i <= db.messages@.len(),
            p == about_account(wechat_user_id.deep_view()),
            chosen@.len() <= i,
            forall|j: int| 0 <= j < chosen@.len() ==> #[trigger] chosen@[j] < db.messages@.len(),
            db@.messages.take(i as int).filter(p) == chosen@.map_values(
                |k: usize| db@.messages[k as int],
            ),
        decreases db.messages@.len() - i,
    {
        let keep: bool = match wechat_user_id {
            Some(u) => text::same(db.messages[i].wechat_user_id.as_str(), u),
            None => true,
        };
        proof {
            reveal(Seq::filter);
            assert(db@.messages.take(i + 1).drop_last() =~= db@.messages.take(i as int));
            assert(db@.messages.take(i + 1).last() == db@.messages[i as int]);
            assert(keep == p(db@.messages[i as int]));
        }
        if keep {
            let ghost before = chosen@;
            chosen.push(i);
            assert(chosen@.map_values(|k: usize| db@.messages[k as int]) =~= before.map_values(
                |k: usize| db@.messages[k as int],
            ).push(db@.messages[i as int]));
        }
        i = i + 1;
    }
    assert(db@.messages.take(i as int) =~= db@.messages);
    let n: usize = chosen.len();
    let ghost rows = db@.newest_first(wechat_user_id.deep_view());
    assert forall|k: int| 0 <= k < n implies #[trigger] rows[k] == db@.messages[chosen@[n - 1
        - k] as int] by {
        assert(db@.messages.filter(p)[n - 1 - k] == db@.messages[chosen@[n - 1 - k] as int]);
    }
    proof {
        let ids = db@.messages.map_values(|m: MessageView| m.id);
        if ids.len() > 0 {
            lemma_ascending_len(ids, db@.last_message_id, ids.len() - 1);
        }
    }
    let total: i64 = n as i64;
    let from: usize = if offset < 0 {
        0
    } else if offset < total {
        offset as usize
    } else {
        n
    };
    let rest: i64 = (n - from) as i64;
    let to: usize = if page_size < 0 || rest < page_size {
        n
    } else {
        from + page_size as usize
    };
    let mut out: Vec<Message> = Vec::new();
    let mut k: usize = from;
    while k < to
        invariant
            from <= k <= to <= n,
            n == chosen@.len(),
            n == rows.len(),
            out@.len() == k - from,
            forall|j: int| 0 <= j < chosen@.len() ==> #[trigger] chosen@[j] < db.messages@.len(),
            forall|j: int| 0 <= j < n ==> #[trigger] rows[j] == db@.messages[chosen@[n - 1
                - j] as int],
            forall|j: int| 0 <= j < k - from ==> (#[trigger] out@[j])@ == rows[from + j],
        decreases to - k,
    {
        let at: usize = chosen[n - 1 - k];
        out.push(db.messages[at].clone());
        assert(rows[k as int] == db@.messages[at as int]);
        k = k + 1;
    }
    assert(out.deep_view() =~= window(rows, page_size as int, offset as int));
    Ok((out, total))
}

/// Makes the first user the administrator where there is none.
pub fn promote_first_user(db: &mut Db)
    ensures
        final(db)@ == old(db)@.with_admin(),
{
    if db.fault.is_some() {
        return;
    }
    let ghost p = with_role("admin"@);
    let mut i: usize = 0;
    while i < db.users.len()
        invariant
            i <= db.users@.len(),
            *db == *old(db),
            p == with_role("admin"@),
            forall|j: int| 0 <= j < i ==> !p(#[trigger] db@.users[j]),
        decreases db.users@.len() - i,
    {
        if text::same(db.users[i].role.as_str(), "admin") {
            assert(p(db@.users[i as int]));
            return;
        }
        i = i + 1;
    }
    if db.users.len() > 0 {
        let row = UserRow {
            id: db.users[0].id,
            username: db.users[0].username.clone(),
            password: db.users[0].password.clone(),
            created_at: db.users[0].created_at.clone(),
            role: "admin".to_owned(),
        };
        db.users.set(0, row);
        assert(db@.users =~= old(db)@.with_admin().users);
    }
}

} // verus!
