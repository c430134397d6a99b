//! Which forum topics of a group the bot answers in.

use vstd::prelude::*;

use std::collections::HashMap;

use crate::text::{int_decimal, int_string};

verus! {

broadcast use vstd::std_specs::hash::group_hash_axioms;

/// The topic whitelist of each group that has one.
pub struct TopicSettings {
    pub whitelisted_topics: HashMap<i64, Vec<i32>>,
}

/// Whether a message in `topic` (or in no topic) of group `chat` is answered:
/// a group without a whitelist, or with an empty one, allows every topic;
/// otherwise only the listed topics are allowed, and the main thread is not.
pub open spec fn topic_allowed_spec(m: Map<i64, Vec<i32>>, chat: i64, topic: Option<i32>) -> bool {
    if m.contains_key(chat) {
        let allowed = m[chat]@;
        if allowed.len() == 0 {
            true
        } else {
            match topic {
                Some(t) => allowed.contains(t),
                None => false,
            }
        }
    } else {
        true
    }
}

impl Default for TopicSettings {
    fn default() -> (r: TopicSettings)
        ensures
            r.whitelisted_topics@ == Map::<i64, Vec<i32>>::empty(),
    {
        TopicSettings { whitelisted_topics: HashMap::new() }
    }
}

impl TopicSettings {
    /// Whether the bot answers a message in `topic_id` of group `chat_id`
    /// (see `topic_allowed_spec`).
    pub fn is_topic_allowed(&self, chat_id: i64, topic_id: Option<i32>) -> (r: bool)
        ensures
            r == topic_allowed_spec(self.whitelisted_topics@, chat_id, topic_id),
    {
        match self.whitelisted_topics.get(&chat_id) {
            Some(allowed) => {
                if allowed.len() == 0 {
                    true
                } else {
                    match topic_id {
                        Some(tid) => {
                            let mut i: usize = 0;
                            while i < allowed.len()
                                invariant
                                    self.whitelisted_topics@.contains_key(chat_id),
                                    self.whitelisted_topics@[chat_id] == *allowed,
                                    allowed@.len() > 0,
                                    topic_id == Some(tid),
                                    i <= allowed@.len(),
                                    forall|k: int| 0 <= k < i ==> allowed@[k] != tid,
                                decreases allowed@.len() - i,
                            {
                                if allowed[i] == tid {
                                    assert(allowed@[i as int] == tid);
                                    return true;
                                }
                                i = i + 1;
                            }
                            false
                        },
                        None => false,
                    }
                }
            },
            None => true,
        }
    }

    /// Sets the whitelist of a group; an empty list removes it, so that every
    /// topic is allowed.
    pub fn set_allowed_topics(&mut self, chat_id: i64, topics: Vec<i32>)
        ensures
            topics@.len() == 0 ==> final(self).whitelisted_topics@ == old(self).whitelisted_topics@.remove(chat_id),
            topics@.len() > 0 ==> final(self).whitelisted_topics@ == old(self).whitelisted_topics@.insert(chat_id, topics),
    {
        if topics.len() == 0 {
            self.whitelisted_topics.remove(&chat_id);
        } else {
            self.whitelisted_topics.insert(chat_id, topics);
        }
    }
}

/// After a group's whitelist is set, the group allows exactly the listed
/// topics (every topic when the list is empty), and every other group allows
/// what it allowed before.
pub proof fn law_whitelist_then_allowed(
    before: Map<i64, Vec<i32>>,
    after: Map<i64, Vec<i32>>,
    chat: i64,
    topics: Vec<i32>,
    other: i64,
    topic: Option<i32>,
)
    requires
        topics@.len() == 0 ==> after == before.remove(chat),
        topics@.len() > 0 ==> after == before.insert(chat, topics),
    ensures
        topic_allowed_spec(after, chat, topic) == (topics@.len() == 0 || (topic is Some && topics@.contains(topic->0))),
        other != chat ==> topic_allowed_spec(after, other, topic) == topic_allowed_spec(before, other, topic),
{
}

/// Topic ids as HTML code spans joined by `, `.
pub open spec fn code_list(ids: Seq<i32>) -> Seq<char>
    decreases ids.len(),
{
    if ids.len() == 0 {
        Seq::empty()
    } else if ids.len() == 1 {
        "<code>"@ + int_decimal(ids[0] as int) + "</code>"@
    } else {
        code_list(ids.drop_last()) + ", "@ + "<code>"@ + int_decimal(ids.last() as int) + "</code>"@
    }
}

fn code_list_string(ids: &Vec<i32>) -> (r: String)
    ensures
        r@ == code_list(ids@),
{
    let mut out = String::new();
    let mut i: usize = 0;
    while i < ids.len()
        invariant
            i <= ids@.len(),
            out@ == code_list(ids@.take(i as int)),
        decreases ids@.len() - i,
    {
        assert(ids@.take(i + 1).drop_last() =~= ids@.take(i as int));
        if i > 0 {
            out.append(", ");
        }
        out.append("<code>");
        let n = int_string(ids[i] as i64);
        out.append(n.as_str());
        out.append("</code>");
        i = i + 1;
        assert(out@ =~= code_list(ids@.take(i as int)));
    }
    assert(ids@.take(ids@.len() as int) =~= ids@);
    out
}

/// The whitelist of a group as `/settingsid` reports it.
pub open spec fn whitelist_status(topics: Option<Seq<i32>>) -> Seq<char> {
    match topics {
        Some(t) => if t.len() > 0 {
            "Whitelisted Topic IDs: "@ + code_list(t)
        } else {
            "No restrictions set (Any topic is allowed)."@
        },
        None => "No restrictions set (Any topic is allowed)."@,
    }
}

/// The reply to `/settingsid` without arguments: the group's whitelist and
/// how to change it.
pub open spec fn whitelist_report_spec(topics: Option<Seq<i32>>) -> Seq<char> {
    "Nautilus Topic Whitelist Settings\n\nCurrent status: "@ + whitelist_status(topics)
        + "\n\nTo set whitelist: <code>/settingsid &lt;id1&gt; &lt;id2&gt; ...</code>\nTo clear: <code>/settingsid clear</code>"@
}

impl TopicSettings {
    /// The reply to `/settingsid` without arguments for a group (see
    /// `whitelist_report_spec`).
    pub fn whitelist_report(&self, chat_id: i64) -> (r: String)
        ensures
            r@ == whitelist_report_spec(
                if self.whitelisted_topics@.contains_key(chat_id) {
                    Some(self.whitelisted_topics@[chat_id]@)
                } else {
                    None
                },
            ),
    {
        let status = match self.whitelisted_topics.get(&chat_id) {
            Some(t) => if t.len() > 0 {
                let mut s = String::from_str("Whitelisted Topic IDs: ");
                let l = code_list_string(t);
                s.append(l.as_str());
                s
            } else {
                String::from_str("No restrictions set (Any topic is allowed).")
            },
            None => String::from_str("No restrictions set (Any topic is allowed)."),
        };
        let mut r = String::from_str("Nautilus Topic Whitelist Settings\n\nCurrent status: ");
        r.append(status.as_str());
        r.append(
            "\n\nTo set whitelist: <code>/settingsid &lt;id1&gt; &lt;id2&gt; ...</code>\nTo clear: <code>/settingsid clear</code>",
        );
        r
    }
}

/// The reply after a group's whitelist is set.
pub fn whitelist_updated_text(ids: &Vec<i32>) -> (r: String)
    ensures
        r@ == "Successfully updated whitelisted topic IDs for this group to: "@ + code_list(ids@),
{
    let mut r = String::from_str("Successfully updated whitelisted topic IDs for this group to: ");
    let l = code_list_string(ids);
    r.append(l.as_str());
    r
}

/// What a message's reply header says about its forum topic.
pub struct ReplyHeader {
    pub forum_topic: bool,
    pub reply_to_top_id: Option<i32>,
    pub reply_to_msg_id: Option<i32>,
}

/// The forum topic of a message: for a reply header in a forum topic, the
/// topic's top message, else the message replied to; no topic otherwise.
pub open spec fn topic_of_spec(h: Option<ReplyHeader>) -> Option<i32> {
    match h {
        Some(hd) => if hd.forum_topic {
            match hd.reply_to_top_id {
                Some(t) => Some(t),
                None => hd.reply_to_msg_id,
            }
        } else {
            None
        },
        None => None,
    }
}

/// The forum topic that a message belongs to (see `topic_of_spec`).
pub fn topic_id_of(header: Option<ReplyHeader>) -> (r: Option<i32>)
    ensures
        r == topic_of_spec(header),
{
    match header {
        Some(hd) => if hd.forum_topic {
            match hd.reply_to_top_id {
                Some(t) => Some(t),
                None => hd.reply_to_msg_id,
            }
        } else {
            None
        },
        None => None,
    }
}

} // verus!
