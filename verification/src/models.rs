//! The data that the engine works on: subscriptions, filter rules, quiet-hours
//! schedules, messages in both directions and the events handed to consumers.
//!
//! Every type has a mathematical view (`deep_view`, written `@` on a single
//! value) in which strings are `Seq<char>` and lists are `Seq`; contracts are
//! stated over these views.

use vstd::prelude::*;
use crate::error::Error;
use crate::validation::{is_valid_server, is_valid_topic, valid_server, valid_topic};

verus! {

/// The server that a subscription uses when none is named.
pub const DEFAULT_SERVER: &'static str = "https://ntfy.sh";

/// A copy of an optional string.
pub fn copy_opt_text(s: &Option<String>) -> (r: Option<String>)
    ensures
        r.deep_view() == s.deep_view(),
{
    match s {
        Some(t) => Some(t.clone()),
        None => None,
    }
}

/// A copy of a list of strings.
pub fn copy_texts(v: &Vec<String>) -> (r: Vec<String>)
    ensures
        r.deep_view() == v.deep_view(),
{
    let mut out: Vec<String> = Vec::new();
    let mut i: usize = 0;
    while i < v.len()
        invariant
            i <= v.len(),
            out.len() == i,
            forall|k: int| 0 <= k < i ==> out@[k]@ == v@[k]@,
        decreases v.len() - i,
    {
        out.push(v[i].clone());
        i = i + 1;
    }
    assert(out.deep_view() =~= v.deep_view());
    out
}

/// What a matching filter rule does to a message.
#[derive(Clone, Copy, Debug, PartialEq, Eq, Structural)]
pub enum FilterAction {
    /// Store and forward the message, but show no notification.
    Mute,
    /// Drop the message: it is neither stored, nor notified, nor forwarded.
    Discard,
    /// Store and forward the message, show no notification, and move the
    /// read cursor up to the message's time.
    MarkRead,
}

impl DeepView for FilterAction {
    type V = FilterAction;

    open spec fn deep_view(&self) -> FilterAction {
        *self
    }
}

/// One filter rule; rules are tried in the order in which they are listed.
#[derive(Debug, PartialEq, Eq)]
pub struct FilterRule {
    pub name: String,
    pub regex: String,
    pub action: FilterAction,
}

/// The view of a [`FilterRule`].
pub struct FilterRuleView {
    pub name: Seq<char>,
    pub regex: Seq<char>,
    pub action: FilterAction,
}

impl DeepView for FilterRule {
    type V = FilterRuleView;

    open spec fn deep_view(&self) -> FilterRuleView {
        FilterRuleView { name: self.name@, regex: self.regex@, action: self.action }
    }
}

impl View for FilterRule {
    type V = FilterRuleView;

    open spec fn view(&self) -> FilterRuleView {
        self.deep_view()
    }
}

impl Clone for FilterRule {
    fn clone(&self) -> (r: Self)
        ensures
            r@ == self@,
    {
        FilterRule { name: self.name.clone(), regex: self.regex.clone(), action: self.action }
    }
}

/// Quiet hours: a daily window in local time, on chosen days of the week.
#[derive(Debug, PartialEq, Eq)]
pub struct Schedule {
    /// When the window opens, as `HH:MM`.
    pub start_time: String,
    /// When the window closes, as `HH:MM`.
    pub end_time: String,
    /// The days on which the window opens; Sunday is 0, Saturday is 6.
    pub days: Vec<u8>,
}

/// The view of a [`Schedule`].
pub struct ScheduleView {
    pub start_time: Seq<char>,
    pub end_time: Seq<char>,
    pub days: Seq<u8>,
}

impl DeepView for Schedule {
    type V = ScheduleView;

    open spec fn deep_view(&self) -> ScheduleView {
        ScheduleView { start_time: self.start_time@, end_time: self.end_time@, days: self.days@ }
    }
}

impl View for Schedule {
    type V = ScheduleView;

    open spec fn view(&self) -> ScheduleView {
        self.deep_view()
    }
}

impl Clone for Schedule {
    fn clone(&self) -> (r: Self)
        ensures
            r@ == self@,
    {
        let mut days: Vec<u8> = Vec::new();
        let mut i: usize = 0;
        while i < self.days.len()
            invariant
                i <= self.days.len(),
                days@ == self.days@.subrange(0, i as int),
            decreases self.days.len() - i,
        {
            days.push(self.days[i]);
            i = i + 1;
            assert(days@ =~= self.days@.subrange(0, i as int));
        }
        assert(days@ =~= self.days@);
        Schedule { start_time: self.start_time.clone(), end_time: self.end_time.clone(), days }
    }
}

/// A copy of an optional list of rules.
pub fn copy_rules(rules: &Option<Vec<FilterRule>>) -> (r: Option<Vec<FilterRule>>)
    ensures
        r.deep_view() == rules.deep_view(),
{
    match rules {
        None => None,
        Some(v) => {
            let mut out: Vec<FilterRule> = Vec::new();
            let mut i: usize = 0;
            while i < v.len()
                invariant
                    i <= v.len(),
                    out.len() == i,
                    forall|k: int| 0 <= k < i ==> out@[k]@ == v@[k]@,
                decreases v.len() - i,
            {
                out.push(v[i].clone());
                i = i + 1;
            }
            assert(out.deep_view() =~= v.deep_view());
            Some(out)
        },
    }
}

/// A copy of an optional schedule.
pub fn copy_schedule(schedule: &Option<Schedule>) -> (r: Option<Schedule>)
    ensures
        r.deep_view() == schedule.deep_view(),
{
    match schedule {
        None => None,
        Some(s) => Some(s.clone()),
    }
}

/// Something that the user can do from a notification.
#[derive(Debug, PartialEq, Eq)]
pub enum Action {
    /// Open a URL.
    View { url: String, label: String },
    /// Send an HTTP request.
    Http { method: String, url: String, body: String, headers: Vec<(String, String)>, label: String },
    /// Send a broadcast to other applications.
    Broadcast { label: String },
    /// An action of a kind that this client does not know.
    Other,
}

/// The view of an [`Action`].
pub enum ActionView {
    View { url: Seq<char>, label: Seq<char> },
    Http {
        method: Seq<char>,
        url: Seq<char>,
        body: Seq<char>,
        headers: Seq<(Seq<char>, Seq<char>)>,
        label: Seq<char>,
    },
    Broadcast { label: Seq<char> },
    Other,
}

impl DeepView for Action {
    type V = ActionView;

    open spec fn deep_view(&self) -> ActionView {
        match self {
            Action::View { url, label } => ActionView::View { url: url@, label: label@ },
            Action::Http { method, url, body, headers, label } => ActionView::Http {
                method: method@,
                url: url@,
                body: body@,
                headers: headers.deep_view(),
                label: label@,
            },
            Action::Broadcast { label } => ActionView::Broadcast { label: label@ },
            Action::Other => ActionView::Other,
        }
    }
}

impl View for Action {
    type V = ActionView;

    open spec fn view(&self) -> ActionView {
        self.deep_view()
    }
}

/// A copy of a list of header lines.
pub fn copy_headers(v: &Vec<(String, String)>) -> (r: Vec<(String, String)>)
    ensures
        r.deep_view() == v.deep_view(),
{
    let mut out: Vec<(String, String)> = Vec::new();
    let mut i: usize = 0;
    while i < v.len()
        invariant
            i <= v.len(),
            out.len() == i,
            forall|k: int| 0 <= k < i ==> out@[k].deep_view() == v@[k].deep_view(),
        decreases v.len() - i,
    {
        out.push((v[i].0.clone(), v[i].1.clone()));
        i = i + 1;
    }
    assert(out.deep_view() =~= v.deep_view());
    out
}

impl Clone for Action {
    fn clone(&self) -> (r: Self)
        ensures
            r@ == self@,
    {
        match self {
            Action::View { url, label } => Action::View { url: url.clone(), label: label.clone() },
            Action::Http { method, url, body, headers, label } => Action::Http {
                method: method.clone(),
                url: url.clone(),
                body: body.clone(),
                headers: copy_headers(headers),
                label: label.clone(),
            },
            Action::Broadcast { label } => Action::Broadcast { label: label.clone() },
            Action::Other => Action::Other,
        }
    }
}

/// A copy of a list of actions.
pub fn copy_actions(v: &Vec<Action>) -> (r: Vec<Action>)
    ensures
        r.deep_view() == v.deep_view(),
{
    let mut out: Vec<Action> = Vec::new();
    let mut i: usize = 0;
    while i < v.len()
        invariant
            i <= v.len(),
            out.len() == i,
            forall|k: int| 0 <= k < i ==> out@[k]@ == v@[k]@,
        decreases v.len() - i,
    {
        out.push(v[i].clone());
        i = i + 1;
    }
    assert(out.deep_view() =~= v.deep_view());
    out
}

/// A message as the server sends it.
#[derive(Debug, PartialEq, Eq)]
pub struct ReceivedMessage {
    /// The server's id for the message; no two messages of a server share one.
    pub id: String,
    /// When the message was published, in seconds since the Unix epoch.
    pub time: u64,
    /// The kind of event: `message`, `open`, `keepalive` or `poll_request`.
    pub event: String,
    pub topic: String,
    pub message: Option<String>,
    pub title: Option<String>,
    pub tags: Option<Vec<String>>,
    pub priority: Option<u8>,
    pub actions: Option<Vec<Action>>,
}

/// The view of a [`ReceivedMessage`].
pub struct ReceivedMessageView {
    pub id: Seq<char>,
    pub time: u64,
    pub event: Seq<char>,
    pub topic: Seq<char>,
    pub message: Option<Seq<char>>,
    pub title: Option<Seq<char>>,
    pub tags: Option<Seq<Seq<char>>>,
    pub priority: Option<u8>,
    pub actions: Option<Seq<ActionView>>,
}

impl DeepView for ReceivedMessage {
    type V = ReceivedMessageView;

    open spec fn deep_view(&self) -> ReceivedMessageView {
        ReceivedMessageView {
            id: self.id@,
            time: self.time,
            event: self.event@,
            topic: self.topic@,
            message: self.message.deep_view(),
            title: self.title.deep_view(),
            tags: self.tags.deep_view(),
            priority: self.priority,
            actions: self.actions.deep_view(),
        }
    }
}

impl View for ReceivedMessage {
    type V = ReceivedMessageView;

    open spec fn view(&self) -> ReceivedMessageView {
        self.deep_view()
    }
}

impl Clone for ReceivedMessage {
    fn clone(&self) -> (r: Self)
        ensures
            r@ == self@,
    {
        let tags = match &self.tags {
            Some(t) => Some(copy_texts(t)),
            None => None,
        };
        let actions = match &self.actions {
            Some(a) => Some(copy_actions(a)),
            None => None,
        };
        ReceivedMessage {
            id: self.id.clone(),
            time: self.time,
            event: self.event.clone(),
            topic: self.topic.clone(),
            message: copy_opt_text(&self.message),
            title: copy_opt_text(&self.title),
            tags,
            priority: self.priority,
            actions,
        }
    }
}

impl ReceivedMessageView {
    /// The text that filter rules are matched against: the title, if there
    /// is one, then a space, then the body.
    pub open spec fn filter_text(self) -> Seq<char> {
        let title = match self.title {
            Some(t) => t,
            None => Seq::<char>::empty(),
        };
        let body = match self.message {
            Some(m) => m,
            None => Seq::<char>::empty(),
        };
        title + seq![' '] + body
    }

    /// The body shown in a notification: the message, or nothing.
    pub open spec fn body_text(self) -> Seq<char> {
        match self.message {
            Some(m) => m,
            None => Seq::<char>::empty(),
        }
    }

    /// The actions offered by a notification: those of the message, or none.
    pub open spec fn offered_actions(self) -> Seq<ActionView> {
        match self.actions {
            Some(a) => a,
            None => Seq::<ActionView>::empty(),
        }
    }
}

/// A message that the user publishes to a topic.
#[derive(Debug, PartialEq, Eq)]
pub struct OutgoingMessage {
    pub message: Option<String>,
    pub title: Option<String>,
    pub tags: Option<Vec<String>>,
    pub priority: Option<u8>,
    pub actions: Option<Vec<Action>>,
}

/// The view of an [`OutgoingMessage`].
pub struct OutgoingMessageView {
    pub message: Option<Seq<char>>,
    pub title: Option<Seq<char>>,
    pub tags: Option<Seq<Seq<char>>>,
    pub priority: Option<u8>,
    pub actions: Option<Seq<ActionView>>,
}

impl DeepView for OutgoingMessage {
    type V = OutgoingMessageView;

    open spec fn deep_view(&self) -> OutgoingMessageView {
        OutgoingMessageView {
            message: self.message.deep_view(),
            title: self.title.deep_view(),
            tags: self.tags.deep_view(),
            priority: self.priority,
            actions: self.actions.deep_view(),
        }
    }
}

impl View for OutgoingMessage {
    type V = OutgoingMessageView;

    open spec fn view(&self) -> OutgoingMessageView {
        self.deep_view()
    }
}

/// What the desktop notifier is asked to show.
#[derive(Debug, PartialEq, Eq)]
pub struct Notification {
    pub title: String,
    pub body: String,
    pub actions: Vec<Action>,
}

/// The view of a [`Notification`].
pub struct NotificationView {
    pub title: Seq<char>,
    pub body: Seq<char>,
    pub actions: Seq<ActionView>,
}

impl DeepView for Notification {
    type V = NotificationView;

    open spec fn deep_view(&self) -> NotificationView {
        NotificationView { title: self.title@, body: self.body@, actions: self.actions.deep_view() }
    }
}

impl View for Notification {
    type V = NotificationView;

    open spec fn view(&self) -> NotificationView {
        self.deep_view()
    }
}

/// How well the stream of a subscription is doing.
#[derive(Clone, Copy, Debug, PartialEq, Eq, Structural)]
pub enum ConnectionState {
    /// A message or a keepalive has arrived since the last failure.
    Up,
    /// One or two attempts in a row have failed.
    Degraded,
    /// Three or more attempts in a row have failed.
    Down,
}

/// What a listener tells its consumers.
#[derive(Debug, PartialEq, Eq)]
pub enum ListenerEvent {
    Message(ReceivedMessage),
    ConnectionStateChanged(ConnectionState),
    PollStarted,
    PollFinished,
}

/// The view of a [`ListenerEvent`].
pub enum ListenerEventView {
    Message(ReceivedMessageView),
    ConnectionStateChanged(ConnectionState),
    PollStarted,
    PollFinished,
}

impl DeepView for ListenerEvent {
    type V = ListenerEventView;

    open spec fn deep_view(&self) -> ListenerEventView {
        match self {
            ListenerEvent::Message(m) => ListenerEventView::Message(m@),
            ListenerEvent::ConnectionStateChanged(s) => ListenerEventView::ConnectionStateChanged(*s),
            ListenerEvent::PollStarted => ListenerEventView::PollStarted,
            ListenerEvent::PollFinished => ListenerEventView::PollFinished,
        }
    }
}

impl View for ListenerEvent {
    type V = ListenerEventView;

    open spec fn view(&self) -> ListenerEventView {
        self.deep_view()
    }
}

impl Clone for ListenerEvent {
    fn clone(&self) -> (r: Self)
        ensures
            r@ == self@,
    {
        match self {
            ListenerEvent::Message(m) => ListenerEvent::Message(m.clone()),
            ListenerEvent::ConnectionStateChanged(s) => ListenerEvent::ConnectionStateChanged(*s),
            ListenerEvent::PollStarted => ListenerEvent::PollStarted,
            ListenerEvent::PollFinished => ListenerEvent::PollFinished,
        }
    }
}

/// A login on a server; the password lives in the credential vault only.
#[derive(Debug, PartialEq, Eq)]
pub struct Account {
    pub server: String,
    pub username: String,
}

/// The view of an [`Account`].
pub struct AccountView {
    pub server: Seq<char>,
    pub username: Seq<char>,
}

impl DeepView for Account {
    type V = AccountView;

    open spec fn deep_view(&self) -> AccountView {
        AccountView { server: self.server@, username: self.username@ }
    }
}

/// The symmetric key of a topic, as base64 text of 32 bytes.
#[derive(Debug, PartialEq, Eq)]
pub struct TopicKey {
    pub server: String,
    pub topic: String,
    pub key: String,
}

/// The view of a [`TopicKey`].
pub struct TopicKeyView {
    pub server: Seq<char>,
    pub topic: Seq<char>,
    pub key: Seq<char>,
}

impl DeepView for TopicKey {
    type V = TopicKeyView;

    open spec fn deep_view(&self) -> TopicKeyView {
        TopicKeyView { server: self.server@, topic: self.topic@, key: self.key@ }
    }
}

/// A subscription to one topic of one server.
#[derive(Debug, PartialEq, Eq)]
pub struct Subscription {
    pub server: String,
    pub topic: String,
    pub display_name: Option<String>,
    pub reserved: bool,
    pub muted: bool,
    pub archived: bool,
    pub symbolic_icon: Option<String>,
    /// The read cursor: messages published at or before this time, in
    /// seconds since the Unix epoch, count as read.
    pub read_until: u64,
    pub rules: Option<Vec<FilterRule>>,
    pub schedule: Option<Schedule>,
}

/// The view of a [`Subscription`].
pub struct SubscriptionView {
    pub server: Seq<char>,
    pub topic: Seq<char>,
    pub display_name: Option<Seq<char>>,
    pub reserved: bool,
    pub muted: bool,
    pub archived: bool,
    pub symbolic_icon: Option<Seq<char>>,
    pub read_until: u64,
    pub rules: Option<Seq<FilterRuleView>>,
    pub schedule: Option<ScheduleView>,
}

impl DeepView for Subscription {
    type V = SubscriptionView;

    open spec fn deep_view(&self) -> SubscriptionView {
        SubscriptionView {
            server: self.server@,
            topic: self.topic@,
            display_name: self.display_name.deep_view(),
            reserved: self.reserved,
            muted: self.muted,
            archived: self.archived,
            symbolic_icon: self.symbolic_icon.deep_view(),
            read_until: self.read_until,
            rules: self.rules.deep_view(),
            schedule: self.schedule.deep_view(),
        }
    }
}

impl View for Subscription {
    type V = SubscriptionView;

    open spec fn view(&self) -> SubscriptionView {
        self.deep_view()
    }
}

impl Clone for Subscription {
    fn clone(&self) -> (r: Self)
        ensures
            r@ == self@,
    {
        Subscription {
            server: self.server.clone(),
            topic: self.topic.clone(),
            display_name: copy_opt_text(&self.display_name),
            reserved: self.reserved,
            muted: self.muted,
            archived: self.archived,
            symbolic_icon: copy_opt_text(&self.symbolic_icon),
            read_until: self.read_until,
            rules: copy_rules(&self.rules),
            schedule: copy_schedule(&self.schedule),
        }
    }
}

impl SubscriptionView {
    /// Whether the topic and the server are both acceptable.
    pub open spec fn valid(self) -> bool {
        valid_topic(self.topic) && valid_server(self.server)
    }

    /// A subscription as it is first created: nothing set but the two names.
    pub open spec fn fresh(server: Seq<char>, topic: Seq<char>) -> SubscriptionView {
        SubscriptionView {
            server,
            topic,
            display_name: None,
            reserved: false,
            muted: false,
            archived: false,
            symbolic_icon: None,
            read_until: 0,
            rules: None,
            schedule: None,
        }
    }
}

impl Subscription {
    /// Starts a subscription to `topic` on the default server.
    pub fn builder(topic: String) -> (b: SubscriptionBuilder)
        ensures
            b@ == SubscriptionView::fresh(DEFAULT_SERVER@, topic@),
    {
        SubscriptionBuilder::new(topic)
    }

    /// Validates the topic and the server. A subscription that passes comes
    /// back unchanged; one that fails is refused with `InvalidSubscription`,
    /// which lists `InvalidTopic` first, where the topic is refused, and
    /// then `InvalidServer`, where the server is.
    pub fn validate(self) -> (r: Result<Subscription, Error>)
        ensures
            r is Ok <==> self@.valid(),
            r matches Ok(s) ==> s@ == self@,
            r matches Err(e) ==> refusal_of(e, self@),
    {
        let topic_ok = is_valid_topic(self.topic.as_str());
        let server_ok = is_valid_server(self.server.as_str());
        if topic_ok && server_ok {
            return Ok(self);
        }
        let mut errs: Vec<Error> = Vec::new();
        if !topic_ok {
            errs.push(Error::InvalidTopic(self.topic.clone()));
        }
        if !server_ok {
            errs.push(Error::InvalidServer(self.server.clone()));
        }
        Err(Error::InvalidSubscription(errs))
    }
}

/// Whether `e` is the refusal that validation owes to subscription `s`.
pub open spec fn refusal_of(e: Error, s: SubscriptionView) -> bool {
    let topic_ok = valid_topic(s.topic);
    let server_ok = valid_server(s.server);
    &&& e matches Error::InvalidSubscription(errs)
    &&& errs@.len() == (if topic_ok { 0int } else { 1 }) + (if server_ok { 0int } else { 1 })
    &&& !topic_ok ==> (errs@[0] matches Error::InvalidTopic(t) && t@ == s.topic)
    &&& !server_ok ==> (errs@[errs@.len() - 1] matches Error::InvalidServer(v) && v@ == s.server)
}

/// Collects the fields of a subscription before it is validated.
#[derive(Debug)]
pub struct SubscriptionBuilder {
    server: String,
    topic: String,
    muted: bool,
    archived: bool,
    reserved: bool,
    symbolic_icon: Option<String>,
    display_name: Option<String>,
}

impl View for SubscriptionBuilder {
    type V = SubscriptionView;

    /// The subscription that `build` would validate.
    closed spec fn view(&self) -> SubscriptionView {
        SubscriptionView {
            server: self.server@,
            topic: self.topic@,
            display_name: self.display_name.deep_view(),
            reserved: self.reserved,
            muted: self.muted,
            archived: self.archived,
            symbolic_icon: self.symbolic_icon.deep_view(),
            read_until: 0,
            rules: None,
            schedule: None,
        }
    }
}

impl SubscriptionBuilder {
    /// A builder for `topic` on the default server.
    pub fn new(topic: String) -> (b: Self)
        ensures
            b@ == SubscriptionView::fresh(DEFAULT_SERVER@, topic@),
    {
        SubscriptionBuilder {
            server: String::from_str(DEFAULT_SERVER),
            topic,
            muted: false,
            archived: false,
            reserved: false,
            symbolic_icon: None,
            display_name: None,
        }
    }

    pub fn server(self, server: String) -> (b: Self)
        ensures
            b@ == (SubscriptionView { server: server@, ..self@ }),
    {
        let mut b = self;
        b.server = server;
        b
    }

    pub fn muted(self, muted: bool) -> (b: Self)
        ensures
            b@ == (SubscriptionView { muted, ..self@ }),
    {
        let mut b = self;
        b.muted = muted;
        b
    }

    pub fn archived(self, archived: bool) -> (b: Self)
        ensures
            b@ == (SubscriptionView { archived, ..self@ }),
    {
        let mut b = self;
        b.archived = archived;
        b
    }

    pub fn reserved(self, reserved: bool) -> (b: Self)
        ensures
            b@ == (SubscriptionView { reserved, ..self@ }),
    {
        let mut b = self;
        b.reserved = reserved;
        b
    }

    pub fn symbolic_icon(self, symbolic_icon: Option<String>) -> (b: Self)
        ensures
            b@ == (SubscriptionView { symbolic_icon: symbolic_icon.deep_view(), ..self@ }),
    {
        let mut b = self;
        b.symbolic_icon = symbolic_icon;
        b
    }

    pub fn display_name(self, display_name: String) -> (b: Self)
        ensures
            b@ == (SubscriptionView { display_name: Some(display_name@), ..self@ }),
    {
        let mut b = self;
        b.display_name = Some(display_name);
        b
    }

    /// The subscription, if its topic and server are acceptable; else the
    /// refusal that [`Subscription::validate`] gives.
    pub fn build(self) -> (r: Result<Subscription, Error>)
        ensures
            r is Ok <==> self@.valid(),
            r matches Ok(s) ==> s@ == self@,
            r matches Err(e) ==> refusal_of(e, self@),
    {
        let sub = Subscription {
            server: self.server,
            topic: self.topic,
            display_name: self.display_name,
            reserved: self.reserved,
            muted: self.muted,
            archived: self.archived,
            symbolic_icon: self.symbolic_icon,
            read_until: 0,
            rules: None,
            schedule: None,
        };
        sub.validate()
    }
}

impl ReceivedMessage {
    /// The title to display: the message's own, if it has one.
    pub fn display_title(&self) -> (r: Option<String>)
        ensures
            r.deep_view() == self@.title,
    {
        copy_opt_text(&self.title)
    }

    /// The body to display: the message's own, if it has one.
    pub fn display_message(&self) -> (r: Option<String>)
        ensures
            r.deep_view() == self@.message,
    {
        copy_opt_text(&self.message)
    }

    /// The title of the notification for this message: the message's title;
    /// without one, the subscription's display name; without that, the topic
    /// of the message.
    pub fn notification_title(&self, subscription: &Subscription) -> (r: String)
        ensures
            r@ == notification_title_of(self@, subscription@),
    {
        match &self.title {
            Some(t) => t.clone(),
            None => match &subscription.display_name {
                Some(n) => n.clone(),
                None => self.topic.clone(),
            },
        }
    }
}

/// The title of the notification that `msg` gets under `subscription`.
pub open spec fn notification_title_of(
    msg: ReceivedMessageView,
    subscription: SubscriptionView,
) -> Seq<char> {
    match msg.title {
        Some(t) => t,
        None => match subscription.display_name {
            Some(n) => n,
            None => msg.topic,
        },
    }
}

} // verus!
