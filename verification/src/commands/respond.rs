//! How interactions are answered.
//!
//! Every command or click is acknowledged before anything else. What a handler
//! returns then becomes one call, which depends on the kind of the interaction.

use crate::roll::ConsentEmbed;
use crate::session::Button;
use vstd::prelude::*;

verus! {

/// A kind of interaction.
#[derive(Debug, Clone, Copy, PartialEq, Eq, Structural)]
pub enum InteractionKind {
    Command,
    Component,
}

/// The first call for an interaction.
#[derive(Debug, Clone, Copy, PartialEq, Eq, Structural)]
pub enum Ack {
    /// The answer follows.
    Defer { ephemeral: bool },
    /// The click is taken in; the message stays as it is.
    Acknowledge,
}

impl InteractionKind {
    /// The name of the kind.
    pub open spec fn name(self) -> Seq<char> {
        match self {
            InteractionKind::Command => "command"@,
            InteractionKind::Component => "component"@,
        }
    }

    /// The name of the kind.
    pub fn kind_label(self) -> (l: &'static str)
        ensures
            l@ == self.name(),
    {
        match self {
            InteractionKind::Command => "command",
            InteractionKind::Component => "component",
        }
    }

    /// How the kind is acknowledged: commands are deferred for the user alone,
    /// clicks just taken in.
    pub fn ack(self) -> (a: Ack)
        ensures
            a == (match self {
                InteractionKind::Command => Ack::Defer { ephemeral: true },
                InteractionKind::Component => Ack::Acknowledge,
            }),
    {
        match self {
            InteractionKind::Command => Ack::Defer { ephemeral: true },
            InteractionKind::Component => Ack::Acknowledge,
        }
    }
}

/// What a handler answers.
pub enum InteractionReply {
    /// New contents for the deferred answer.
    Edit {
        content: Option<String>,
        embed: Option<ConsentEmbed>,
        components: Vec<Vec<Button>>,
    },
    /// New contents for the message that a click was on.
    UpdateMessage {
        embed: Option<ConsentEmbed>,
        content: Option<String>,
        components: Vec<Vec<Button>>,
    },
    /// A message behind the acknowledgement.
    Followup { content: String, ephemeral: bool, components: Vec<Vec<Button>> },
    /// Nothing more.
    Silent,
}

/// The call that carries an answer.
pub enum Dispatch {
    /// Edit the interaction's own response.
    EditResponse {
        content: Option<String>,
        embed: Option<ConsentEmbed>,
        components: Vec<Vec<Button>>,
    },
    /// Edit the message that the click was on.
    EditMessage {
        content: Option<String>,
        embed: Option<ConsentEmbed>,
        components: Vec<Vec<Button>>,
    },
    /// Send one more message.
    CreateFollowup { content: String, ephemeral: bool, components: Vec<Vec<Button>> },
    /// No call.
    Nothing,
}

/// The call that carries an answer. Only an update tells the kinds apart: a
/// command has no message of its own but its deferred response.
pub open spec fn dispatched(kind: InteractionKind, reply: InteractionReply) -> Dispatch {
    match reply {
        InteractionReply::Edit { content, embed, components } => Dispatch::EditResponse {
            content,
            embed,
            components,
        },
        InteractionReply::UpdateMessage { embed, content, components } => match kind {
            InteractionKind::Command => Dispatch::EditResponse { content, embed, components },
            InteractionKind::Component => Dispatch::EditMessage { content, embed, components },
        },
        InteractionReply::Followup { content, ephemeral, components } => Dispatch::CreateFollowup {
            content,
            ephemeral,
            components,
        },
        InteractionReply::Silent => Dispatch::Nothing,
    }
}

/// The call that carries an answer.
pub fn translate(kind: InteractionKind, reply: InteractionReply) -> (d: Dispatch)
    ensures
        d == dispatched(kind, reply),
{
    match reply {
        InteractionReply::Edit { content, embed, components } => Dispatch::EditResponse {
            content,
            embed,
            components,
        },
        InteractionReply::UpdateMessage { embed, content, components } => match kind {
            InteractionKind::Command => Dispatch::EditResponse { content, embed, components },
            InteractionKind::Component => Dispatch::EditMessage { content, embed, components },
        },
        InteractionReply::Followup { content, ephemeral, components } => Dispatch::CreateFollowup {
            content,
            ephemeral,
            components,
        },
        InteractionReply::Silent => Dispatch::Nothing,
    }
}

/// How far the answer to an interaction has come.
#[derive(Debug, Clone, Copy, PartialEq, Eq, Structural)]
pub enum RespondStage {
    /// The acknowledgement is on its way.
    Acknowledging,
    /// The handler works.
    Handling,
    /// The answer is on its way.
    Answering,
    Over,
}

/// What is done next for an interaction.
pub enum RespondRequest {
    /// Send the acknowledgement.
    Acknowledge { ack: Ack },
    /// Run the handler.
    Handle,
    /// Make this one call.
    Send { call: Dispatch },
    /// Everything is done.
    Done,
    /// The last call failed, and nothing more is done.
    Failed,
}

/// The answer to one interaction: first the acknowledgement, then the handler,
/// then one call for what it returned.
pub struct Responding {
    pub kind: InteractionKind,
    pub stage: RespondStage,
}

impl Responding {
    /// The acknowledgement comes first, whatever the interaction.
    pub fn begin(kind: InteractionKind) -> (r: (Responding, RespondRequest))
        ensures
            r.0.kind == kind,
            r.0.stage is Acknowledging,
            r.1 == (RespondRequest::Acknowledge {
                ack: match kind {
                    InteractionKind::Command => Ack::Defer { ephemeral: true },
                    InteractionKind::Component => Ack::Acknowledge,
                },
            }),
    {
        (
            Responding { kind, stage: RespondStage::Acknowledging },
            RespondRequest::Acknowledge { ack: kind.ack() },
        )
    }

    /// The acknowledgement went out, or failed. Without it the handler is not
    /// run: the time to answer is over.
    pub fn acknowledged(&mut self, ok: bool) -> (r: RespondRequest)
        requires
            old(self).stage is Acknowledging,
        ensures
            final(self).kind == old(self).kind,
            if ok {
                final(self).stage is Handling && r is Handle
            } else {
                final(self).stage is Over && r is Failed
            },
    {
        if ok {
            self.stage = RespondStage::Handling;
            RespondRequest::Handle
        } else {
            self.stage = RespondStage::Over;
            RespondRequest::Failed
        }
    }

    /// The handler has returned. A silent reply needs no call.
    pub fn handled(&mut self, reply: InteractionReply) -> (r: RespondRequest)
        requires
            old(self).stage is Handling,
        ensures
            final(self).kind == old(self).kind,
            if reply is Silent {
                final(self).stage is Over && r is Done
            } else {
                final(self).stage is Answering && r == (RespondRequest::Send {
                    call: dispatched(old(self).kind, reply),
                })
            },
    {
        match translate(self.kind, reply) {
            Dispatch::Nothing => {
                self.stage = RespondStage::Over;
                RespondRequest::Done
            },
            call => {
                self.stage = RespondStage::Answering;
                RespondRequest::Send { call }
            },
        }
    }

    /// The call went out, or failed. Either way it was the last one.
    pub fn sent(&mut self, ok: bool) -> (r: RespondRequest)
        requires
            old(self).stage is Answering,
        ensures
            final(self).kind == old(self).kind,
            final(self).stage is Over,
            ok ==> r is Done,
            !ok ==> r is Failed,
    {
        self.stage = RespondStage::Over;
        if ok {
            RespondRequest::Done
        } else {
            RespondRequest::Failed
        }
    }
}

} // verus!
