//! What is done about a packet.
use crate::json;
use crate::json::{Json, JsonTree};
use crate::ws_protocol::{Content, KnownOperation, Operation, Packet};
use vstd::prelude::*;

verus! {

/// Something that the user is told.
#[derive(Debug)]
pub enum Notice {
    /// Somebody wrote a comment.
    Danmaku { user: String, comment: String, avatar: String },
    /// Somebody came into the room.
    Entered { user: String },
    /// Somebody follows the streamer from now on.
    Followed { user: String },
}

/// What a notice says.
pub enum NoticeText {
    Danmaku { user: Seq<char>, comment: Seq<char>, avatar: Seq<char> },
    Entered { user: Seq<char> },
    Followed { user: Seq<char> },
}

impl View for Notice {
    type V = NoticeText;

    open spec fn view(&self) -> NoticeText {
        match self {
            Notice::Danmaku { user, comment, avatar } => NoticeText::Danmaku {
                user: user@,
                comment: comment@,
                avatar: avatar@,
            },
            Notice::Entered { user } => NoticeText::Entered { user: user@ },
            Notice::Followed { user } => NoticeText::Followed { user: user@ },
        }
    }
}

/// What is done about a packet.
#[derive(Debug)]
pub enum Reaction {
    /// The user is told.
    Notify(Notice),
    /// Nothing: the event is not one of those that the user is told about.
    OtherCommand,
    /// Nothing: a visitor did something else than to come in or to follow.
    OtherInteraction,
    /// Nothing: the packet carries no event.
    Control(KnownOperation),
    /// Nothing: nobody knows what the packet is.
    Unknown(u32),
}

/// What a reaction says.
pub enum ReactionText {
    Notify(NoticeText),
    OtherCommand,
    OtherInteraction,
    Control(KnownOperation),
    Unknown(u32),
}

impl View for Reaction {
    type V = ReactionText;

    open spec fn view(&self) -> ReactionText {
        match self {
            Reaction::Notify(notice) => ReactionText::Notify(notice@),
            Reaction::OtherCommand => ReactionText::OtherCommand,
            Reaction::OtherInteraction => ReactionText::OtherInteraction,
            Reaction::Control(known) => ReactionText::Control(*known),
            Reaction::Unknown(code) => ReactionText::Unknown(*code),
        }
    }
}

/// Whether an event is a comment.
pub open spec fn is_comment(event: JsonTree) -> bool {
    event.member("cmd"@).text() == Some("DANMU_MSG"@)
}

/// Whether an event is something that a visitor did.
pub open spec fn is_interaction(event: JsonTree) -> bool {
    event.member("cmd"@).text() == Some("INTERACT_WORD"@)
}

/// The text of a comment.
pub open spec fn comment_text(event: JsonTree) -> Option<Seq<char>> {
    event.member("info"@).element(1).text()
}

/// The name of a comment's author.
pub open spec fn comment_author(event: JsonTree) -> Option<Seq<char>> {
    event.member("info"@).element(2).element(1).text()
}

/// The address of the picture of a comment's author.
pub open spec fn comment_avatar(event: JsonTree) -> Option<Seq<char>> {
    event.member("info"@).element(0).element(15).member("user"@).member("base"@).member(
        "face"@,
    ).text()
}

/// What a visitor did, as a number: to come in is one, to follow is two.
pub open spec fn interaction_kind(event: JsonTree) -> Option<i64> {
    event.member("data"@).member("msg_type"@).integer()
}

/// The name of a visitor who did something.
pub open spec fn visitor(event: JsonTree) -> Option<Seq<char>> {
    event.member("data"@).member("uname"@).text()
}

/// A text, or the empty one where there is none.
pub open spec fn or_empty(text: Option<Seq<char>>) -> Seq<char> {
    match text {
        Some(text) => text,
        None => Seq::empty(),
    }
}

/// Whether an event has what the user is told of it: a comment the author's picture, a
/// visitor who comes in or follows a name.
pub open spec fn is_complete(event: JsonTree) -> bool {
    if is_comment(event) {
        comment_avatar(event) is Some
    } else if is_interaction(event) && (interaction_kind(event) == Some(1i64) || interaction_kind(
        event,
    ) == Some(2i64)) {
        visitor(event) is Some
    } else {
        true
    }
}

/// What is done about an event.
pub open spec fn event_reaction(event: JsonTree) -> ReactionText {
    if is_comment(event) {
        ReactionText::Notify(
            NoticeText::Danmaku {
                user: or_empty(comment_author(event)),
                comment: or_empty(comment_text(event)),
                avatar: comment_avatar(event)->0,
            },
        )
    } else if is_interaction(event) {
        if interaction_kind(event) == Some(1i64) {
            ReactionText::Notify(NoticeText::Entered { user: visitor(event)->0 })
        } else if interaction_kind(event) == Some(2i64) {
            ReactionText::Notify(NoticeText::Followed { user: visitor(event)->0 })
        } else {
            ReactionText::OtherInteraction
        }
    } else {
        ReactionText::OtherCommand
    }
}

/// Whether packets with this operation carry events.
pub open spec fn carries_event(operation: Operation) -> bool {
    operation == Operation::Known(KnownOperation::SendMsgReply) || operation == Operation::Known(
        KnownOperation::SendMsg,
    )
}

/// Whether a packet that ought to carry an event carries a complete one.
pub open spec fn is_readable(content: Content) -> bool {
    carries_event(content.operation) ==> (json::json_parsed(content.body) matches Some(event)
        && is_complete(event))
}

/// What is done about a packet.
pub open spec fn packet_reaction(content: Content) -> ReactionText {
    if carries_event(content.operation) {
        event_reaction(json::json_parsed(content.body)->0)
    } else {
        match content.operation {
            Operation::Known(known) => ReactionText::Control(known),
            Operation::Unknown(code) => ReactionText::Unknown(code),
        }
    }
}

fn is_text(value: &Json, wanted: &str) -> (r: bool)
    ensures
        r == (value@.text() == Some(wanted@)),
{
    match value.as_str() {
        Some(text) => text.to_owned() == wanted.to_owned(),
        None => false,
    }
}

fn text_or_empty(value: &Json) -> (text: String)
    ensures
        text@ == or_empty(value@.text()),
{
    match value.as_str() {
        Some(text) => text.to_owned(),
        None => String::new(),
    }
}

fn avatar_of<'a>(event: &'a Json) -> (avatar: &'a Json)
    ensures
        avatar@.text() == comment_avatar(event@),
{
    event.member("info").element(0).element(15).member("user").member("base").member("face")
}

/// Whether an event has what the user is told of it.
pub fn check_event(event: &Json) -> (complete: bool)
    ensures
        complete == is_complete(event@),
{
    if is_text(event.member("cmd"), "DANMU_MSG") {
        avatar_of(event).as_str().is_some()
    } else if is_text(event.member("cmd"), "INTERACT_WORD") {
        let data = event.member("data");
        match data.member("msg_type").as_i64() {
            Some(1) | Some(2) => data.member("uname").as_str().is_some(),
            _ => true,
        }
    } else {
        true
    }
}

/// Decides what is done about an event.
///
/// The event has to be complete: see [`check_event`].
pub fn react(event: &Json) -> (reaction: Reaction)
    requires
        is_complete(event@),
    ensures
        reaction@ == event_reaction(event@),
{
    if is_text(event.member("cmd"), "DANMU_MSG") {
        let info = event.member("info");
        let comment = text_or_empty(info.element(1));
        let user = text_or_empty(info.element(2).element(1));
        let avatar = avatar_of(event).as_str().unwrap().to_owned();
        Reaction::Notify(Notice::Danmaku { user, comment, avatar })
    } else if is_text(event.member("cmd"), "INTERACT_WORD") {
        let data = event.member("data");
        match data.member("msg_type").as_i64() {
            Some(1) => Reaction::Notify(
                Notice::Entered { user: data.member("uname").as_str().unwrap().to_owned() },
            ),
            Some(2) => Reaction::Notify(
                Notice::Followed { user: data.member("uname").as_str().unwrap().to_owned() },
            ),
            _ => Reaction::OtherInteraction,
        }
    } else {
        Reaction::OtherCommand
    }
}

impl Packet {
    /// Decides what is done about the packet.
    ///
    /// A packet that ought to carry an event has to carry a complete one: see
    /// [`Packet::checked_reaction`] for packets of which that is not known.
    pub fn reaction(&self) -> (reaction: Reaction)
        requires
            is_readable(self@),
        ensures
            reaction@ == packet_reaction(self@),
    {
        match self.operation {
            Operation::Known(KnownOperation::SendMsgReply)
            | Operation::Known(KnownOperation::SendMsg) => {
                let event = json::parse_json(self.body.as_str()).unwrap();
                react(&event)
            },
            Operation::Known(known) => Reaction::Control(known),
            Operation::Unknown(code) => Reaction::Unknown(code),
        }
    }

    /// Decides what is done about the packet, unless it ought to carry an event and does not
    /// carry a complete one.
    pub fn checked_reaction(&self) -> (reaction: Option<Reaction>)
        ensures
            match reaction {
                Some(r) => is_readable(self@) && r@ == packet_reaction(self@),
                None => !is_readable(self@),
            },
    {
        match self.operation {
            Operation::Known(KnownOperation::SendMsgReply)
            | Operation::Known(KnownOperation::SendMsg) => {
                match json::parse_json(self.body.as_str()) {
                    Some(event) => if check_event(&event) {
                        Some(self.reaction())
                    } else {
                        None
                    },
                    None => None,
                }
            },
            _ => Some(self.reaction()),
        }
    }
}

/// How a notice reaches the user.
#[derive(Debug)]
pub enum Delivery {
    /// By the program `terminal-notifier`, with these arguments.
    Command(Vec<String>),
    /// By a notification with a title and a text.
    Notification { title: String, text: String },
}

impl NoticeText {
    /// The notice in one line.
    pub open spec fn line(self) -> Seq<char> {
        match self {
            NoticeText::Danmaku { user, comment, .. } => "User: "@ + user + ", Comment: "@
                + comment,
            NoticeText::Entered { user } => user + " 进入直播间"@,
            NoticeText::Followed { user } => user + " 关注了主播"@,
        }
    }

    /// Whether the notice reaches the user in this way.
    pub open spec fn delivered_by(self, delivery: Delivery) -> bool {
        match self {
            NoticeText::Danmaku { user, comment, avatar } => {
                &&& delivery matches Delivery::Command(args)
                &&& args@.map_values(|arg: String| arg@) == seq![
                    "-title"@,
                    user,
                    "-message"@,
                    comment,
                    "-contentImage"@,
                    avatar,
                ]
            },
            NoticeText::Entered { user } => {
                &&& delivery matches Delivery::Notification { title, text }
                &&& title@ == user
                &&& text@ == "进入直播间"@
            },
            NoticeText::Followed { user } => {
                &&& delivery matches Delivery::Notification { title, text }
                &&& title@ == user
                &&& text@ == "关注了主播"@
            },
        }
    }
}

impl Notice {
    /// The notice in one line.
    pub fn line(&self) -> (line: String)
        ensures
            line@ == self@.line(),
    {
        match self {
            Notice::Danmaku { user, comment, .. } => {
                let mut line = "User: ".to_owned();
                line.append(user.as_str());
                line.append(", Comment: ");
                line.append(comment.as_str());
                line
            },
            Notice::Entered { user } => {
                let mut line = user.clone();
                line.append(" 进入直播间");
                line
            },
            Notice::Followed { user } => {
                let mut line = user.clone();
                line.append(" 关注了主播");
                line
            },
        }
    }

    /// How the notice reaches the user.
    pub fn delivery(&self) -> (delivery: Delivery)
        ensures
            self@.delivered_by(delivery),
    {
        match self {
            Notice::Danmaku { user, comment, avatar } => {
                let mut args: Vec<String> = Vec::new();
                args.push("-title".to_owned());
                args.push(user.clone());
                args.push("-message".to_owned());
                args.push(comment.clone());
                args.push("-contentImage".to_owned());
                args.push(avatar.clone());
                assert(args@.map_values(|arg: String| arg@) =~= seq![
                    "-title"@,
                    user@,
                    "-message"@,
                    comment@,
                    "-contentImage"@,
                    avatar@,
                ]);
                Delivery::Command(args)
            },
            Notice::Entered { user } => Delivery::Notification {
                title: user.clone(),
                text: "进入直播间".to_owned(),
            },
            Notice::Followed { user } => Delivery::Notification {
                title: user.clone(),
                text: "关注了主播".to_owned(),
            },
        }
    }
}

/// Notices and reactions say what they are made of.
pub proof fn law_notice_says_what_it_holds(
    user: String,
    comment: String,
    avatar: String,
    notice: Notice,
    known: KnownOperation,
    code: u32,
)
    ensures
        (Notice::Danmaku { user, comment, avatar })@ == (NoticeText::Danmaku {
            user: user@,
            comment: comment@,
            avatar: avatar@,
        }),
        (Notice::Entered { user })@ == (NoticeText::Entered { user: user@ }),
        (Notice::Followed { user })@ == (NoticeText::Followed { user: user@ }),
        Reaction::Notify(notice)@ == ReactionText::Notify(notice@),
        Reaction::OtherCommand@ == ReactionText::OtherCommand,
        Reaction::OtherInteraction@ == ReactionText::OtherInteraction,
        Reaction::Control(known)@ == ReactionText::Control(known),
        Reaction::Unknown(code)@ == ReactionText::Unknown(code),
{
}

/// The user is told of a comment with a picture: who wrote it, what, and the picture,
/// whatever else the event holds. Without a name or a text the place is left empty. A
/// comment without a picture is not complete.
pub proof fn law_comment_is_told(
    event: &Json,
    name: JsonTree,
    comment: JsonTree,
    face: JsonTree,
    complete: bool,
    reaction: Reaction,
)
    requires
        event@.member("cmd"@) == JsonTree::Text("DANMU_MSG"@),
        name == event@.member("info"@).element(2).element(1),
        comment == event@.member("info"@).element(1),
        face == event@.member("info"@).element(0).element(15).member("user"@).member(
            "base"@,
        ).member("face"@),
        call_ensures(check_event, (event,), complete),
        call_ensures(react, (event,), reaction),
    ensures
        complete == (face is Text),
        face matches JsonTree::Text(address) ==> {
            &&& reaction matches Reaction::Notify(
                Notice::Danmaku { user, comment: said, avatar },
            )
            &&& avatar@ == address
            &&& user@ == (if name is Text {
                name->Text_0
            } else {
                Seq::empty()
            })
            &&& said@ == (if comment is Text {
                comment->Text_0
            } else {
                Seq::empty()
            })
        },
{
}

/// A comment is told with the name and the text that stand in its event, whatever else
/// stands there.
pub proof fn law_comment_keeps_name_and_text(
    event: &Json,
    members: Map<Seq<char>, JsonTree>,
    info: Seq<JsonTree>,
    author: Seq<JsonTree>,
    name: Seq<char>,
    text: Seq<char>,
    extra: Seq<JsonTree>,
    user: Map<Seq<char>, JsonTree>,
    base: Map<Seq<char>, JsonTree>,
    profile: Map<Seq<char>, JsonTree>,
    face: Seq<char>,
    reaction: Reaction,
)
    requires
        event@ == JsonTree::Object(members),
        members.dom().contains("cmd"@),
        members["cmd"@] == JsonTree::Text("DANMU_MSG"@),
        members.dom().contains("info"@),
        members["info"@] == JsonTree::Array(info),
        info.len() > 2,
        info[1] == JsonTree::Text(text),
        info[2] == JsonTree::Array(author),
        author.len() > 1,
        author[1] == JsonTree::Text(name),
        info[0] == JsonTree::Array(extra),
        extra.len() > 15,
        extra[15] == JsonTree::Object(profile),
        profile.dom().contains("user"@),
        profile["user"@] == JsonTree::Object(user),
        user.dom().contains("base"@),
        user["base"@] == JsonTree::Object(base),
        base.dom().contains("face"@),
        base["face"@] == JsonTree::Text(face),
        call_ensures(react, (event,), reaction),
    ensures
        reaction matches Reaction::Notify(Notice::Danmaku { user, comment, avatar }) && user@
            == name && comment@ == text && avatar@ == face,
{
    assert(event@.member("info"@).element(2).element(1) == JsonTree::Text(name));
    assert(event@.member("info"@).element(1) == JsonTree::Text(text));
    assert(event@.member("info"@).element(0).element(15).member("user"@).member("base"@).member(
        "face"@,
    ) == JsonTree::Text(face));
    assert(event@.member("cmd"@) == JsonTree::Text("DANMU_MSG"@));
}

/// The user is told who came in and who follows from now on; of anything else that a visitor
/// does the user is told nothing. A visitor without a name is not complete.
pub proof fn law_visit_is_told(
    event: &Json,
    kind: JsonTree,
    name: JsonTree,
    complete: bool,
    reaction: Reaction,
)
    requires
        event@.member("cmd"@) == JsonTree::Text("INTERACT_WORD"@),
        kind == event@.member("data"@).member("msg_type"@),
        name == event@.member("data"@).member("uname"@),
        call_ensures(check_event, (event,), complete),
        call_ensures(react, (event,), reaction),
    ensures
        kind == JsonTree::Integer(1) || kind == JsonTree::Integer(2) ==> complete == (name is Text),
        kind == JsonTree::Integer(1) && name is Text ==> (reaction matches Reaction::Notify(
            Notice::Entered { user },
        ) && user@ == name->Text_0),
        kind == JsonTree::Integer(2) && name is Text ==> (reaction matches Reaction::Notify(
            Notice::Followed { user },
        ) && user@ == name->Text_0),
        kind != JsonTree::Integer(1) && kind != JsonTree::Integer(2) ==> complete
            && reaction is OtherInteraction,
{
    reveal_strlit("DANMU_MSG");
    reveal_strlit("INTERACT_WORD");
    assert("DANMU_MSG"@.len() != "INTERACT_WORD"@.len());
}

/// Of any other event the user is told nothing.
pub proof fn law_other_event_is_not_told(event: &Json, complete: bool, reaction: Reaction)
    requires
        event@.member("cmd"@) != JsonTree::Text("DANMU_MSG"@),
        event@.member("cmd"@) != JsonTree::Text("INTERACT_WORD"@),
        call_ensures(check_event, (event,), complete),
        call_ensures(react, (event,), reaction),
    ensures
        complete,
        reaction is OtherCommand,
{
}

/// A packet with a message is told as the event in it, where that is complete; without a
/// complete event the packet cannot be told.
pub proof fn law_message_is_told_as_its_event(
    packet: &Packet,
    event: &Json,
    complete: bool,
    told: Reaction,
    reaction: Reaction,
    checked: Option<Reaction>,
)
    requires
        packet.operation == Operation::Known(KnownOperation::SendMsgReply) || packet.operation
            == Operation::Known(KnownOperation::SendMsg),
        json::json_parsed(packet.body@) == Some(event@),
        call_ensures(check_event, (event,), complete),
        call_ensures(react, (event,), told),
        call_ensures(Packet::reaction, (packet,), reaction),
        call_ensures(Packet::checked_reaction, (packet,), checked),
    ensures
        complete ==> reaction@ == told@ && (checked matches Some(r) && r@ == told@),
        !complete ==> checked is None,
{
}

/// A packet with a message that is no JSON cannot be told.
pub proof fn law_message_without_event_is_refused(packet: &Packet, checked: Option<Reaction>)
    requires
        packet.operation == Operation::Known(KnownOperation::SendMsgReply) || packet.operation
            == Operation::Known(KnownOperation::SendMsg),
        json::json_parsed(packet.body@) is None,
        call_ensures(Packet::checked_reaction, (packet,), checked),
    ensures
        checked is None,
{
}

/// Of a packet that carries no message the user is told nothing, whatever its body is.
pub proof fn law_other_packet_is_not_told(
    packet: &Packet,
    reaction: Reaction,
    checked: Option<Reaction>,
)
    requires
        packet.operation != Operation::Known(KnownOperation::SendMsgReply),
        packet.operation != Operation::Known(KnownOperation::SendMsg),
        call_ensures(Packet::reaction, (packet,), reaction),
        call_ensures(Packet::checked_reaction, (packet,), checked),
    ensures
        match packet.operation {
            Operation::Known(known) => reaction == Reaction::Control(known) && checked == Some(
                Reaction::Control(known),
            ),
            Operation::Unknown(code) => reaction == Reaction::Unknown(code) && checked == Some(
                Reaction::Unknown(code),
            ),
        },
{
}

/// A notice is told in one line with all that it says but the picture.
pub proof fn law_line_tells_the_notice(notice: &Notice, line: String)
    requires
        call_ensures(Notice::line, (notice,), line),
    ensures
        match notice {
            Notice::Danmaku { user, comment, .. } => line@ == "User: "@ + user@ + ", Comment: "@
                + comment@,
            Notice::Entered { user } => line@ == user@ + " 进入直播间"@,
            Notice::Followed { user } => line@ == user@ + " 关注了主播"@,
        },
{
}

/// A notice reaches the user with all that it says: a comment by a command, a visit by a
/// notification.
pub proof fn law_delivery_carries_the_notice(notice: &Notice, delivery: Delivery)
    requires
        call_ensures(Notice::delivery, (notice,), delivery),
    ensures
        match notice {
            Notice::Danmaku { user, comment, avatar } => {
                &&& delivery matches Delivery::Command(args)
                &&& args@.len() == 6
                &&& args@[0]@ == "-title"@
                &&& args@[1]@ == user@
                &&& args@[2]@ == "-message"@
                &&& args@[3]@ == comment@
                &&& args@[4]@ == "-contentImage"@
                &&& args@[5]@ == avatar@
            },
            Notice::Entered { user } => delivery matches Delivery::Notification { title, text }
                && title@ == user@ && text@ == "进入直播间"@,
            Notice::Followed { user } => delivery matches Delivery::Notification { title, text }
                && title@ == user@ && text@ == "关注了主播"@,
        },
{
    if let Notice::Danmaku { user, comment, avatar } = notice {
        let args = delivery->Command_0@;
        let texts = args.map_values(|arg: String| arg@);
        assert(texts.len() == 6);
        assert forall|i: int| 0 <= i < args.len() implies texts[i] == args[i]@ by {}
    }
}

} // verus!
