//! Conversation-session rules: trimming history, selecting the most
//! recent unexpired session, and naming session files.  Reading and
//! writing the session directory is left to the caller.

use vstd::prelude::*;
use crate::models::{Message, Session};
use crate::strutil::{concat_strs, ends_with_seq, starts_with_seq, str_ends_with,
    str_starts_with};

verus! {

/// A session older than this many minutes is expired.
pub const SESSION_EXPIRY_MINUTES: i64 = 30;

/// How many user/assistant exchanges trimming keeps.
pub const MAX_CONVERSATION_PAIRS: usize = 3;

/// Whether a message carries the system role.
pub open spec fn spec_is_system(m: Message) -> bool {
    m.role@ == "system"@
}

/// The system messages of `s`, in order.
pub open spec fn system_msgs(s: Seq<Message>) -> Seq<Message>
    decreases s,
{
    if s.len() == 0 {
        Seq::empty()
    } else if spec_is_system(s[0]) {
        seq![s[0]] + system_msgs(s.drop_first())
    } else {
        system_msgs(s.drop_first())
    }
}

/// The non-system messages of `s`, in order.
pub open spec fn conversation_msgs(s: Seq<Message>) -> Seq<Message>
    decreases s,
{
    if s.len() == 0 {
        Seq::empty()
    } else if spec_is_system(s[0]) {
        conversation_msgs(s.drop_first())
    } else {
        seq![s[0]] + conversation_msgs(s.drop_first())
    }
}

/// The trimmed history: every system message, then the last three
/// user/assistant exchanges (six messages) of the rest, in order.
pub open spec fn spec_trimmed(s: Seq<Message>) -> Seq<Message> {
    let conv = conversation_msgs(s);
    let kept = if conv.len() > 6 {
        conv.skip(conv.len() - 6)
    } else {
        conv
    };
    system_msgs(s) + kept
}

/// Splitting off the last element of `s` splits the classified lists.
proof fn lemma_split_snoc(s: Seq<Message>)
    requires
        s.len() > 0,
    ensures
        system_msgs(s) == system_msgs(s.drop_last()) + (if spec_is_system(s.last()) {
            seq![s.last()]
        } else {
            Seq::<Message>::empty()
        }),
        conversation_msgs(s) == conversation_msgs(s.drop_last()) + (if spec_is_system(s.last()) {
            Seq::<Message>::empty()
        } else {
            seq![s.last()]
        }),
    decreases s,
{
    if s.len() == 1 {
        assert(s.drop_last() =~= Seq::<Message>::empty());
        assert(s.drop_first() =~= Seq::<Message>::empty());
        assert(system_msgs(s.drop_last()) =~= Seq::<Message>::empty());
        assert(conversation_msgs(s.drop_last()) =~= Seq::<Message>::empty());
        if spec_is_system(s[0]) {
            assert(system_msgs(s) =~= seq![s.last()]);
            assert(conversation_msgs(s) =~= Seq::<Message>::empty());
        } else {
            assert(system_msgs(s) =~= Seq::<Message>::empty());
            assert(conversation_msgs(s) =~= seq![s.last()]);
        }
    } else {
        lemma_split_snoc(s.drop_first());
        assert(s.drop_first().drop_last() =~= s.drop_last().drop_first());
        assert(s.drop_first().last() == s.last());
        assert(s.drop_last()[0] == s[0]);
        assert(s.drop_last().len() > 0);
        if spec_is_system(s[0]) {
            assert(system_msgs(s) =~= system_msgs(s.drop_last()) + (if spec_is_system(
                s.last(),
            ) {
                seq![s.last()]
            } else {
                Seq::<Message>::empty()
            }));
            assert(conversation_msgs(s) =~= conversation_msgs(s.drop_last()) + (
            if spec_is_system(s.last()) {
                Seq::<Message>::empty()
            } else {
                seq![s.last()]
            }));
        } else {
            assert(system_msgs(s) =~= system_msgs(s.drop_last()) + (if spec_is_system(
                s.last(),
            ) {
                seq![s.last()]
            } else {
                Seq::<Message>::empty()
            }));
            assert(conversation_msgs(s) =~= conversation_msgs(s.drop_last()) + (
            if spec_is_system(s.last()) {
                Seq::<Message>::empty()
            } else {
                seq![s.last()]
            }));
        }
    }
}

/// Trims the history in place: system messages are kept, and of the
/// rest only the last three exchanges (six messages) remain, in order.
pub fn trim_conversation_history(messages: &mut Vec<Message>)
    ensures
        final(messages)@ == spec_trimmed(old(messages)@),
{
    let ghost orig = messages@;
    let mut sys: Vec<Message> = Vec::new();
    let mut conv: Vec<Message> = Vec::new();
    proof {
        assert(orig.take(0) =~= Seq::<Message>::empty());
        assert(system_msgs(orig.take(0)) =~= Seq::<Message>::empty());
        assert(conversation_msgs(orig.take(0)) =~= Seq::<Message>::empty());
    }
    let ghost total = messages@.len();
    let n0 = messages.len();
    proof {
        assert(total == n0);
    }
    let mut i: usize = 0;
    while messages.len() > 0
        invariant
            orig.len() == total,
            total <= usize::MAX,
            i == total - messages@.len(),
            0 <= i <= total,
            messages@ =~= orig.skip(i as int),
            sys@ == system_msgs(orig.take(i as int)),
            conv@ == conversation_msgs(orig.take(i as int)),
        decreases messages@.len(),
    {
        proof {
            assert(messages@.len() > 0);
            assert(i < total);
            assert(orig.skip(i as int)[0] == orig[i as int]);
            assert(orig.take(i as int + 1).drop_last() =~= orig.take(i as int));
            assert(orig.take(i as int + 1).last() == orig[i as int]);
            lemma_split_snoc(orig.take(i as int + 1));
        }
        let m = messages.remove(0);
        proof {
            assert(m == orig[i as int]);
        }
        if crate::json::streq(m.role.as_str(), "system") {
            sys.push(m);
            proof {
                assert(sys@ =~= system_msgs(orig.take(i as int + 1)));
                assert(conv@ =~= conversation_msgs(orig.take(i as int + 1)));
            }
        } else {
            conv.push(m);
            proof {
                assert(sys@ =~= system_msgs(orig.take(i as int + 1)));
                assert(conv@ =~= conversation_msgs(orig.take(i as int + 1)));
            }
        }
        i += 1;
        proof {
            assert(messages@ =~= orig.skip(i as int));
        }
    }
    proof {
        assert(orig.take(total as int) =~= orig);
    }
    proof {
        assert(conversation_msgs(orig).skip(0) =~= conversation_msgs(orig));
    }
    while conv.len() > 6
        invariant
            conv@.len() <= conversation_msgs(orig).len(),
            conversation_msgs(orig).len() > 6 ==> conv@.len() >= 6,
            conversation_msgs(orig).len() <= 6 ==> conv@.len() == conversation_msgs(orig).len(),
            conv@ =~= conversation_msgs(orig).skip(
                conversation_msgs(orig).len() - conv@.len(),
            ),
        decreases conv@.len(),
    {
        proof {
            let cm = conversation_msgs(orig);
            let d = cm.len() - conv@.len();
            assert(cm.skip(d) =~= cm.subrange(d, cm.len() as int));
            assert(cm.subrange(d, cm.len() as int).drop_first() =~= cm.subrange(
                d + 1,
                cm.len() as int,
            ));
            assert(cm.skip(d + 1) =~= cm.subrange(d + 1, cm.len() as int));
        }
        let _dropped = conv.remove(0);
    }
    proof {
        if conversation_msgs(orig).len() > 6 {
            assert(conv@.len() == 6);
            assert(conv@ =~= conversation_msgs(orig).skip(conversation_msgs(orig).len() - 6));
        } else {
            assert(conv@ =~= conversation_msgs(orig));
        }
    }
    messages.clear();
    messages.append(&mut sys);
    messages.append(&mut conv);
    proof {
        assert(final(messages)@ =~= spec_trimmed(orig));
    }
}

/// Whether a session updated at `last_updated` is unexpired at `now`:
/// within 30 minutes either way.
pub open spec fn spec_fresh(now_secs: i64, last_updated: i64) -> bool {
    -1800 < now_secs - last_updated < 1800
}

/// Selects the most recent session by update time (the earliest listed
/// wins a tie), when it is unexpired at `now_secs`.
pub fn find_recent_session<'a>(sessions: &'a Vec<Session>, now_secs: i64) -> (r: Option<
    &'a Session,
>)
    ensures
        match r {
            Some(s) => {
                &&& exists|i: int| 0 <= i < sessions@.len() && *s == (#[trigger] sessions@[i])
                &&& (forall|i: int|
                    0 <= i < sessions@.len() ==> (#[trigger] sessions@[i]).last_updated
                        <= s.last_updated)
                &&& spec_fresh(now_secs, s.last_updated)
            },
            None => sessions@.len() == 0 || (exists|i: int|
                0 <= i < sessions@.len() && (forall|j: int|
                    0 <= j < sessions@.len() ==> (#[trigger] sessions@[j]).last_updated
                        <= sessions@[i].last_updated) && !spec_fresh(
                    now_secs,
                    (#[trigger] sessions@[i]).last_updated,
                )),
        },
{
    if sessions.len() == 0 {
        return None;
    }
    let n = sessions.len();
    let mut best: usize = 0;
    let mut i: usize = 1;
    while i < n
        invariant
            1 <= i <= n,
            n == sessions@.len(),
            0 <= best < i,
            forall|j: int|
                0 <= j < i ==> (#[trigger] sessions@[j]).last_updated <= sessions@[
                    best as int
                ].last_updated,
        decreases n - i,
    {
        if sessions[i].last_updated > sessions[best].last_updated {
            best = i;
        }
        i += 1;
    }
    let lu = sessions[best].last_updated;
    let diff: i128 = now_secs as i128 - lu as i128;
    if -1800 < diff && diff < 1800 {
        Some(&sessions[best])
    } else {
        None
    }
}

/// Whether `name` names a stored session: `session-<id>.json`.
pub fn is_session_file(name: &str) -> (r: bool)
    ensures
        r == (starts_with_seq(name@, "session-"@) && ends_with_seq(name@, ".json"@)),
{
    str_starts_with(name, "session-") && str_ends_with(name, ".json")
}

/// The file name a session is stored under.
pub fn session_file_name(session_id: &str) -> (r: String)
    ensures
        r@ == "session-"@ + session_id@ + ".json"@,
{
    let m1 = concat_strs("session-", session_id);
    let m = concat_strs(m1.as_str(), ".json");
    proof {
        assert(m@ =~= "session-"@ + session_id@ + ".json"@);
    }
    m
}

} // verus!
