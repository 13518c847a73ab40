//! The chat interface's decisions: the message sent to the model, the
//! conversation context attached to it, and the answers about chats.
use vstd::prelude::*;
use crate::config::{prompt_with_language, AppConfig};
use crate::dbus::exceptions::ClaDbusError;
use crate::dbus::structures::{ChatEntry, Question};
use crate::query::{compaction_input, compaction_point, compaction_text, fold_count, opt_str, pairs, reserved_tokens, turns_tokens};
use crate::text::{append_str, chars_of, string_of};
use super::models::{ChatContext, ChatModel, InteractionModel};

verus! {

/// The part a piece of optional context adds to the message: its label and
/// text when the text is non-empty.
pub open spec fn context_part(label: Seq<char>, text: Option<Seq<char>>) -> Seq<char> {
    match text {
        Some(t) => if t.len() > 0 {
            label + t
        } else {
            seq![]
        },
        None => seq![],
    }
}

/// The message sent to the model: the question, then the stdin, the
/// attachment (with its MIME type) and the terminal output where present.
pub open spec fn user_message(q: Question) -> Seq<char> {
    q.message@ + context_part(
        "\n\n[stdin context]\n"@,
        match q.stdin {
            Some(s) => Some(s.stdin@),
            None => None,
        },
    ) + match q.attachment {
        Some(a) => if a.contents@.len() > 0 {
            "\n\n[attached file: "@ + a.mimetype@ + "]\n"@ + a.contents@
        } else {
            seq![]
        },
        None => seq![],
    } + context_part(
        "\n\n[terminal output]\n"@,
        match q.terminal {
            Some(t) => Some(t.output@),
            None => None,
        },
    )
}

/// Compose the message sent to the model from the question and the context
/// attached to it.
pub fn compose_user_message(input: &Question) -> (r: String)
    ensures
        r@ == user_message(*input),
{
    let mut out = chars_of(input.message.as_str());
    if let Some(stdin) = &input.stdin {
        if !stdin.stdin.as_str().is_empty() {
            append_str(&mut out, "\n\n[stdin context]\n");
            append_str(&mut out, stdin.stdin.as_str());
        }
    }
    if let Some(att) = &input.attachment {
        if !att.contents.as_str().is_empty() {
            append_str(&mut out, "\n\n[attached file: ");
            append_str(&mut out, att.mimetype.as_str());
            append_str(&mut out, "]\n");
            append_str(&mut out, att.contents.as_str());
        }
    }
    if let Some(term) = &input.terminal {
        if !term.output.as_str().is_empty() {
            append_str(&mut out, "\n\n[terminal output]\n");
            append_str(&mut out, term.output.as_str());
        }
    }
    string_of(out.as_slice())
}

/// The chat whose history a question asks for, where history is recorded.
pub fn context_chat(input: &Question, history_enabled: bool) -> (r: Option<String>)
    ensures
        match r {
            Some(c) => history_enabled && (input.context_chat matches Some(x) && x@ == c@),
            None => !history_enabled || input.context_chat is None,
        },
{
    if !history_enabled {
        return None;
    }
    match &input.context_chat {
        Some(c) => Some(c.clone()),
        None => None,
    }
}

/// The (question, response) turns of the interactions, in order.
pub open spec fn interaction_turns(interactions: Seq<InteractionModel>) -> Seq<(Seq<char>, Seq<char>)> {
    interactions.map_values(|i: InteractionModel| (i.question@, i.response@))
}

/// The conversation attached to a question: a summary and the turns after it.
pub struct Conversation {
    pub summary: Option<String>,
    pub turns: Vec<(String, String)>,
}

/// No summary and no turns.
pub fn empty_conversation() -> (r: Conversation)
    ensures
        r.summary is None,
        r.turns@.len() == 0,
{
    Conversation { summary: None, turns: Vec::new() }
}

/// What to do with a chat's context before the question is sent.
pub enum CompactionPlan {
    /// Send the context as it is.
    Keep(Conversation),
    /// Ask the model to summarize `material`; on success store the summary,
    /// mark `folded_ids` summarized and drop the first `count` turns.
    Fold { count: usize, material: String, folded_ids: Vec<String>, context: Conversation },
}

/// The turns of a chat context.
fn context_turns(interactions: &Vec<InteractionModel>) -> (r: Vec<(String, String)>)
    ensures
        pairs(r@) == interaction_turns(interactions@),
{
    let mut out: Vec<(String, String)> = Vec::new();
    let mut i: usize = 0;
    while i < interactions.len()
        invariant
            i <= interactions.len(),
            pairs(out@) == interaction_turns(interactions@.take(i as int)),
        decreases interactions.len() - i,
    {
        let ghost before = out@;
        out.push((interactions[i].question.clone(), interactions[i].response.clone()));
        assert(pairs(out@) =~= pairs(before).push((interactions@[i as int].question@, interactions@[i as int].response@)));
        assert(interaction_turns(interactions@.take(i + 1)) =~= interaction_turns(interactions@.take(i as int)).push((interactions@[i as int].question@, interactions@[i as int].response@)));
        i += 1;
    }
    assert(interactions@.take(interactions.len() as int) =~= interactions@);
    out
}

/// The ids of the first `count` interactions.
fn first_ids(interactions: &Vec<InteractionModel>, count: usize) -> (r: Vec<String>)
    requires
        count <= interactions.len(),
    ensures
        r@.len() == count,
        forall|i: int| 0 <= i < count ==> #[trigger] r@[i]@ == interactions@[i].id@,
{
    let mut out: Vec<String> = Vec::new();
    let mut i: usize = 0;
    while i < count
        invariant
            i <= count <= interactions.len(),
            out@.len() == i,
            forall|j: int| 0 <= j < i ==> #[trigger] out@[j]@ == interactions@[j].id@,
        decreases count - i,
    {
        out.push(interactions[i].id.clone());
        i += 1;
    }
    out
}

/// The first `count` turns.
fn first_turns(turns: &Vec<(String, String)>, count: usize) -> (r: Vec<(String, String)>)
    requires
        count <= turns.len(),
    ensures
        pairs(r@) == pairs(turns@).take(count as int),
{
    let mut out: Vec<(String, String)> = Vec::new();
    let mut i: usize = 0;
    while i < count
        invariant
            i <= count <= turns.len(),
            pairs(out@) == pairs(turns@).take(i as int),
        decreases count - i,
    {
        let ghost before = out@;
        out.push((turns[i].0.clone(), turns[i].1.clone()));
        assert(pairs(out@) =~= pairs(before).push((turns@[i as int].0@, turns@[i as int].1@)));
        assert(pairs(turns@).take(i + 1) =~= pairs(turns@).take(i as int).push((turns@[i as int].0@, turns@[i as int].1@)));
        i += 1;
    }
    out
}

/// The optional text's view.
pub open spec fn opt_seq(s: Option<String>) -> Option<Seq<char>> {
    match s {
        Some(x) => Some(x@),
        None => None,
    }
}

/// Plan the context of a question in a chat: keep the summary and turns as
/// they are while they fit (see `fold_count`), else fold all but the last
/// six turns into a new summary, asking the model with the compaction
/// material of the current summary and the folded turns.
pub fn plan_compaction(config: &AppConfig, user_message: &str, context: &ChatContext) -> (r: CompactionPlan)
    requires
        reserved_tokens(
            prompt_with_language(config.backend.prompt@, config.backend.language@),
            user_message@,
            opt_seq(context.summary),
        ) <= u64::MAX,
        turns_tokens(interaction_turns(context.interactions@)) <= u64::MAX,
    ensures
        match r {
            CompactionPlan::Keep(c) => {
                &&& fold_count(
                    config.backend.context_length,
                    config.backend.max_tokens,
                    reserved_tokens(
                        prompt_with_language(config.backend.prompt@, config.backend.language@),
                        user_message@,
                        opt_seq(context.summary),
                    ),
                    turns_tokens(interaction_turns(context.interactions@)),
                    context.interactions@.len(),
                ) is None
                &&& opt_seq(c.summary) == opt_seq(context.summary)
                &&& pairs(c.turns@) == interaction_turns(context.interactions@)
            },
            CompactionPlan::Fold { count, material, folded_ids, context: c } => {
                &&& fold_count(
                    config.backend.context_length,
                    config.backend.max_tokens,
                    reserved_tokens(
                        prompt_with_language(config.backend.prompt@, config.backend.language@),
                        user_message@,
                        opt_seq(context.summary),
                    ),
                    turns_tokens(interaction_turns(context.interactions@)),
                    context.interactions@.len(),
                ) == Some(count as nat)
                &&& material@ == compaction_text(
                    opt_seq(context.summary),
                    interaction_turns(context.interactions@).take(count as int),
                )
                &&& folded_ids@.len() == count
                &&& forall|i: int| 0 <= i < count ==> #[trigger] folded_ids@[i]@ == context.interactions@[i].id@
                &&& opt_seq(c.summary) == opt_seq(context.summary)
                &&& pairs(c.turns@) == interaction_turns(context.interactions@)
            },
        },
{
    let turns = context_turns(&context.interactions);
    let summary: Option<&str> = match &context.summary {
        Some(s) => Some(s.as_str()),
        None => None,
    };
    assert(opt_str(summary) == opt_seq(context.summary));
    let point = compaction_point(config, user_message, summary, turns.as_slice());
    let current = Conversation {
        summary: match &context.summary {
            Some(s) => Some(s.clone()),
            None => None,
        },
        turns,
    };
    match point {
        None => CompactionPlan::Keep(current),
        Some(count) => {
            let folded = first_turns(&current.turns, count);
            let material = compaction_input(summary, folded.as_slice());
            let folded_ids = first_ids(&context.interactions, count);
            CompactionPlan::Fold { count, material, folded_ids, context: current }
        },
    }
}

/// The context after a fold was stored: the new summary and the turns after
/// the first `count`.
pub fn apply_fold(context: Conversation, count: usize, new_summary: String) -> (r: Conversation)
    requires
        count <= context.turns@.len(),
    ensures
        opt_seq(r.summary) == Some(new_summary@),
        pairs(r.turns@) == pairs(context.turns@).skip(count as int),
{
    let mut kept: Vec<(String, String)> = Vec::new();
    let mut i: usize = count;
    assert(pairs(context.turns@).subrange(count as int, count as int) =~= Seq::<(Seq<char>, Seq<char>)>::empty());
    while i < context.turns.len()
        invariant
            count <= i <= context.turns.len(),
            pairs(kept@) == pairs(context.turns@).subrange(count as int, i as int),
        decreases context.turns.len() - i,
    {
        let ghost before = kept@;
        kept.push((context.turns[i].0.clone(), context.turns[i].1.clone()));
        assert(pairs(kept@) =~= pairs(before).push((context.turns@[i as int].0@, context.turns@[i as int].1@)));
        assert(pairs(context.turns@).subrange(count as int, i + 1) =~= pairs(context.turns@).subrange(count as int, i as int).push((context.turns@[i as int].0@, context.turns@[i as int].1@)));
        i += 1;
    }
    assert(pairs(context.turns@).subrange(count as int, context.turns@.len() as int) =~= pairs(context.turns@).skip(count as int));
    Conversation { summary: Some(new_summary), turns: kept }
}

/// The chat list entry of a stored chat; a missing description is empty.
pub fn chat_entry(model: &ChatModel) -> (r: ChatEntry)
    ensures
        r.id@ == model.id@,
        r.name@ == model.name@,
        r.description@ == match model.description {
            Some(d) => d@,
            None => Seq::<char>::empty(),
        },
        r.created_at@ == model.created_at@,
        r.updated_at@ == model.updated_at@,
        opt_seq(r.deleted_at) == opt_seq(model.deleted_at),
{
    ChatEntry {
        id: model.id.clone(),
        name: model.name.clone(),
        description: match &model.description {
            Some(d) => d.clone(),
            None => String::new(),
        },
        created_at: model.created_at.clone(),
        updated_at: model.updated_at.clone(),
        deleted_at: match &model.deleted_at {
            Some(d) => Some(d.clone()),
            None => None,
        },
    }
}

/// The id of a chat looked up by `name`, or `ChatNotFound(name)`.
pub fn chat_id_or_not_found(chat: &Option<ChatModel>, name: &str) -> (r: Result<String, ClaDbusError>)
    ensures
        match chat {
            Some(c) => r matches Ok(id) && id@ == c.id@,
            None => r matches Err(ClaDbusError::ChatNotFound(n)) && n@ == name@,
        },
{
    match chat {
        Some(c) => Ok(c.id.clone()),
        None => Err(ClaDbusError::ChatNotFound(name.to_owned())),
    }
}

/// The name of the latest chat, or `ChatNotFound("no chats")`.
pub fn latest_chat_name(chat: &Option<ChatModel>) -> (r: Result<String, ClaDbusError>)
    ensures
        match chat {
            Some(c) => r matches Ok(n) && n@ == c.name@,
            None => r matches Err(ClaDbusError::ChatNotFound(n)) && n@ == "no chats"@,
        },
{
    match chat {
        Some(c) => Ok(c.name.clone()),
        None => Err(ClaDbusError::ChatNotFound("no chats".to_owned())),
    }
}

} // verus!
