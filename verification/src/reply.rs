//! What the HTTP handlers answer.

use vstd::prelude::*;

verus! {

pub const BAD_REQUEST: u16 = 400;

pub const UNAUTHORIZED: u16 = 401;

pub const FORBIDDEN: u16 = 403;

pub const NOT_FOUND: u16 = 404;

pub const CONFLICT: u16 = 409;

pub const INTERNAL_SERVER_ERROR: u16 = 500;

pub const BAD_GATEWAY: u16 = 502;

/// Ready-made calls of the sending webhook.
#[derive(Debug)]
pub struct WebhookUsage {
    pub curl: String,
    pub python: String,
    pub rust: String,
}

/// The plain value of a [`WebhookUsage`].
#[verifier::ext_equal]
pub struct WebhookUsageView {
    pub curl: Seq<char>,
    pub python: Seq<char>,
    pub rust: Seq<char>,
}

impl View for WebhookUsage {
    type V = WebhookUsageView;

    open spec fn view(&self) -> WebhookUsageView {
        WebhookUsageView {
            curl: self.curl@,
            python: self.python@,
            rust: self.rust@,
        }
    }
}

impl DeepView for WebhookUsage {
    type V = WebhookUsageView;

    open spec fn deep_view(&self) -> WebhookUsageView {
        self@
    }
}

/// What a user is told about their own account.
#[derive(Debug)]
pub struct Profile {
    pub username: String,
    pub role: String,
    pub wechat_bound: bool,
    pub wechat_user_id: Option<String>,
    pub webhook_url: Option<String>,
    pub webhook_usage: Option<WebhookUsage>,
}

/// The plain value of a [`Profile`].
#[verifier::ext_equal]
pub struct ProfileView {
    pub username: Seq<char>,
    pub role: Seq<char>,
    pub wechat_bound: bool,
    pub wechat_user_id: Option<Seq<char>>,
    pub webhook_url: Option<Seq<char>>,
    pub webhook_usage: Option<WebhookUsageView>,
}

impl View for Profile {
    type V = ProfileView;

    open spec fn view(&self) -> ProfileView {
        ProfileView {
            username: self.username@,
            role: self.role@,
            wechat_bound: self.wechat_bound,
            wechat_user_id: self.wechat_user_id.deep_view(),
            webhook_url: self.webhook_url.deep_view(),
            webhook_usage: self.webhook_usage.deep_view(),
        }
    }
}

impl DeepView for Profile {
    type V = ProfileView;

    open spec fn deep_view(&self) -> ProfileView {
        self@
    }
}

/// A message as it is shown to the user it belongs to.
#[derive(Debug)]
pub struct MessageResponse {
    pub from_user_id: String,
    pub text: Option<String>,
    pub image: bool,
    pub file: bool,
}

/// The plain value of a [`MessageResponse`].
#[verifier::ext_equal]
pub struct MessageResponseView {
    pub from_user_id: Seq<char>,
    pub text: Option<Seq<char>>,
    pub image: bool,
    pub file: bool,
}

impl View for MessageResponse {
    type V = MessageResponseView;

    open spec fn view(&self) -> MessageResponseView {
        MessageResponseView {
            from_user_id: self.from_user_id@,
            text: self.text.deep_view(),
            image: self.image,
            file: self.file,
        }
    }
}

impl DeepView for MessageResponse {
    type V = MessageResponseView;

    open spec fn deep_view(&self) -> MessageResponseView {
        self@
    }
}

/// How a broadcast went for one account.
#[derive(Debug)]
pub struct BroadcastResult {
    pub user_id: String,
    pub success: bool,
    pub error: Option<String>,
}

/// The plain value of a [`BroadcastResult`].
#[verifier::ext_equal]
pub struct BroadcastResultView {
    pub user_id: Seq<char>,
    pub success: bool,
    pub error: Option<Seq<char>>,
}

impl View for BroadcastResult {
    type V = BroadcastResultView;

    open spec fn view(&self) -> BroadcastResultView {
        BroadcastResultView {
            user_id: self.user_id@,
            success: self.success,
            error: self.error.deep_view(),
        }
    }
}

impl DeepView for BroadcastResult {
    type V = BroadcastResultView;

    open spec fn deep_view(&self) -> BroadcastResultView {
        self@
    }
}

/// A user as it is shown to the administrator.
#[derive(Debug)]
pub struct UserSummary {
    pub id: i64,
    pub username: String,
    pub role: String,
    pub wechat_bound: bool,
    pub wechat_user_id: Option<String>,
}

/// The plain value of a [`UserSummary`].
#[verifier::ext_equal]
pub struct UserSummaryView {
    pub id: int,
    pub username: Seq<char>,
    pub role: Seq<char>,
    pub wechat_bound: bool,
    pub wechat_user_id: Option<Seq<char>>,
}

impl View for UserSummary {
    type V = UserSummaryView;

    open spec fn view(&self) -> UserSummaryView {
        UserSummaryView {
            id: self.id as int,
            username: self.username@,
            role: self.role@,
            wechat_bound: self.wechat_bound,
            wechat_user_id: self.wechat_user_id.deep_view(),
        }
    }
}

impl DeepView for UserSummary {
    type V = UserSummaryView;

    open spec fn deep_view(&self) -> UserSummaryView {
        self@
    }
}

/// A message as it is shown to the administrator.
#[derive(Debug)]
pub struct MessageSummary {
    pub id: i64,
    pub wechat_user_id: String,
    pub username: String,
    pub direction: String,
    pub content: String,
    pub msg_type: String,
    pub created_at: String,
}

/// The plain value of a [`MessageSummary`].
#[verifier::ext_equal]
pub struct MessageSummaryView {
    pub id: int,
    pub wechat_user_id: Seq<char>,
    pub username: Seq<char>,
    pub direction: Seq<char>,
    pub content: Seq<char>,
    pub msg_type: Seq<char>,
    pub created_at: Seq<char>,
}

impl View for MessageSummary {
    type V = MessageSummaryView;

    open spec fn view(&self) -> MessageSummaryView {
        MessageSummaryView {
            id: self.id as int,
            wechat_user_id: self.wechat_user_id@,
            username: self.username@,
            direction: self.direction@,
            content: self.content@,
            msg_type: self.msg_type@,
            created_at: self.created_at@,
        }
    }
}

impl DeepView for MessageSummary {
    type V = MessageSummaryView;

    open spec fn deep_view(&self) -> MessageSummaryView {
        self@
    }
}

/// The payload of an answer.
#[derive(Debug)]
pub enum Data {
    /// A fresh captcha.
    Captcha { captcha_id: String, captcha_image: String },
    /// A login token and whom it belongs to.
    Login { token: String, username: String, role: String },
    /// The user's own account.
    Profile(Profile),
    /// A QR code to scan.
    QrCode { qrcode_id: String, qrcode_url: String },
    /// An account that was bound.
    Bound { wechat_user_id: String },
    /// How far the binding is.
    Status { status: String },
    /// Messages of one account.
    Messages { messages: Vec<MessageResponse> },
    /// One page of messages of one account.
    MessagePage {
        messages: Vec<MessageResponse>,
        page: i64,
        page_size: i64,
        total: i64,
        total_pages: i64,
    },
    /// How a broadcast went.
    Broadcast { results: Vec<BroadcastResult> },
    /// All users.
    Users { users: Vec<UserSummary> },
    /// One page of messages of any account.
    AdminPage {
        messages: Vec<MessageSummary>,
        page: i64,
        page_size: i64,
        total: i64,
        total_pages: i64,
    },
}

/// The plain value of a [`Data`].
#[verifier::ext_equal]
pub enum DataView {
    Captcha { captcha_id: Seq<char>, captcha_image: Seq<char> },
    Login { token: Seq<char>, username: Seq<char>, role: Seq<char> },
    Profile(ProfileView),
    QrCode { qrcode_id: Seq<char>, qrcode_url: Seq<char> },
    Bound { wechat_user_id: Seq<char> },
    Status { status: Seq<char> },
    Messages { messages: Seq<MessageResponseView> },
    MessagePage {
        messages: Seq<MessageResponseView>,
        page: int,
        page_size: int,
        total: int,
        total_pages: int,
    },
    Broadcast { results: Seq<BroadcastResultView> },
    Users { users: Seq<UserSummaryView> },
    AdminPage {
        messages: Seq<MessageSummaryView>,
        page: int,
        page_size: int,
        total: int,
        total_pages: int,
    },
}

impl View for Data {
    type V = DataView;

    open spec fn view(&self) -> DataView {
        match self {
            Data::Captcha { captcha_id, captcha_image } => DataView::Captcha {
                captcha_id: captcha_id@,
                captcha_image: captcha_image@,
            },
            Data::Login { token, username, role } => DataView::Login {
                token: token@,
                username: username@,
                role: role@,
            },
            Data::Profile(x) => DataView::Profile(x@),
            Data::QrCode { qrcode_id, qrcode_url } => DataView::QrCode {
                qrcode_id: qrcode_id@,
                qrcode_url: qrcode_url@,
            },
            Data::Bound { wechat_user_id } => DataView::Bound {
                wechat_user_id: wechat_user_id@,
            },
            Data::Status { status } => DataView::Status {
                status: status@,
            },
            Data::Messages { messages } => DataView::Messages {
                messages: messages.deep_view(),
            },
            Data::MessagePage {
                messages,
                page,
                page_size,
                total,
                total_pages,
            } => DataView::MessagePage {
                messages: messages.deep_view(),
                page: *page as int,
                page_size: *page_size as int,
                total: *total as int,
                total_pages: *total_pages as int,
            },
            Data::Broadcast { results } => DataView::Broadcast {
                results: results.deep_view(),
            },
            Data::Users { users } => DataView::Users {
                users: users.deep_view(),
            },
            Data::AdminPage {
                messages,
                page,
                page_size,
                total,
                total_pages,
            } => DataView::AdminPage {
                messages: messages.deep_view(),
                page: *page as int,
                page_size: *page_size as int,
                total: *total as int,
                total_pages: *total_pages as int,
            },
        }
    }
}

impl DeepView for Data {
    type V = DataView;

    open spec fn deep_view(&self) -> DataView {
        self@
    }
}

/// The body of an answer.
#[derive(Debug)]
pub struct ApiResponse {
    pub success: bool,
    pub message: String,
    pub data: Option<Data>,
}

/// The plain value of an [`ApiResponse`].
#[verifier::ext_equal]
pub struct ApiResponseView {
    pub success: bool,
    pub message: Seq<char>,
    pub data: Option<DataView>,
}

impl View for ApiResponse {
    type V = ApiResponseView;

    open spec fn view(&self) -> ApiResponseView {
        ApiResponseView {
            success: self.success,
            message: self.message@,
            data: self.data.deep_view(),
        }
    }
}

impl DeepView for ApiResponse {
    type V = ApiResponseView;

    open spec fn deep_view(&self) -> ApiResponseView {
        self@
    }
}

impl ApiResponseView {
    /// A success without payload.
    pub open spec fn ok(message: Seq<char>) -> ApiResponseView {
        ApiResponseView { success: true, message, data: None }
    }

    /// A success with a payload.
    pub open spec fn ok_with_data(message: Seq<char>, data: DataView) -> ApiResponseView {
        ApiResponseView { success: true, message, data: Some(data) }
    }

    /// A failure.
    pub open spec fn error(message: Seq<char>) -> ApiResponseView {
        ApiResponseView { success: false, message, data: None }
    }
}

impl ApiResponse {
    pub fn ok(msg: &str) -> (r: ApiResponse)
        ensures
            r@ == ApiResponseView::ok(msg@),
    {
        ApiResponse { success: true, message: msg.to_owned(), data: None }
    }

    pub fn ok_with_data(msg: &str, data: Data) -> (r: ApiResponse)
        ensures
            r@ == ApiResponseView::ok_with_data(msg@, data@),
    {
        ApiResponse { success: true, message: msg.to_owned(), data: Some(data) }
    }

    pub fn error(msg: &str) -> (r: ApiResponse)
        ensures
            r@ == ApiResponseView::error(msg@),
    {
        ApiResponse { success: false, message: msg.to_owned(), data: None }
    }
}

/// A failure with its HTTP status.
#[derive(Debug)]
pub struct ErrorReply {
    pub status: u16,
    pub body: ApiResponse,
}

/// The plain value of an [`ErrorReply`].
#[verifier::ext_equal]
pub struct ErrorReplyView {
    pub status: u16,
    pub body: ApiResponseView,
}

impl View for ErrorReply {
    type V = ErrorReplyView;

    open spec fn view(&self) -> ErrorReplyView {
        ErrorReplyView {
            status: self.status,
            body: self.body@,
        }
    }
}

impl DeepView for ErrorReply {
    type V = ErrorReplyView;

    open spec fn deep_view(&self) -> ErrorReplyView {
        self@
    }
}

/// A failure with the given status and text.
pub open spec fn failure(status: u16, message: Seq<char>) -> ErrorReplyView {
    ErrorReplyView { status, body: ApiResponseView::error(message) }
}

/// Makes a failure with the given status and text.
pub fn fail(status: u16, message: &str) -> (r: ErrorReply)
    ensures
        r@ == failure(status, message@),
{
    ErrorReply { status, body: ApiResponse::error(message) }
}

/// What a handler answers.
pub type Reply = Result<ApiResponse, ErrorReply>;

/// The plain value of a [`Reply`].
pub type ReplyView = Result<ApiResponseView, ErrorReplyView>;

} // verus!
