//! Notifications seen by the listener: duplicates are dropped, and only the
//! most recent keys are remembered.
use vstd::prelude::*;

use crate::background::Payload;
use crate::text::{
    chars_of, opt_view, signed_decimal, signed_decimal_string, str_cat, str_is, trim, trim_chars,
};

verus! {

/// How many notification keys are remembered.
pub const SEEN_NOTIFICATION_LIMIT: usize = 1000;

/// The key that identifies a notification: its id within its topic, or,
/// without an id, its time, topic and message.
pub open spec fn spec_notification_key(
    id: Option<Seq<char>>,
    time: Option<i64>,
    topic: Seq<char>,
    message: Seq<char>,
) -> Seq<char> {
    match id {
        Some(i) if trim(i).len() > 0 => "id:"@ + topic + ":"@ + i,
        _ => "fallback:"@ + signed_decimal(
            match time {
                Some(t) => t as int,
                None => 0,
            },
        ) + ":"@ + topic + ":"@ + message,
    }
}

/// The key under which a notification is remembered.
pub fn notification_key(notification: &Payload) -> (r: String)
    ensures
        r@ == spec_notification_key(
            opt_view(notification.id),
            notification.time,
            notification.topic@,
            notification.message@,
        ),
{
    match &notification.id {
        Some(id) => {
            if trim_chars(chars_of(id.as_str()).as_slice()).len() > 0 {
                let mut k = str_cat("id:", notification.topic.as_str());
                k.append(":");
                k.append(id.as_str());
                return k;
            }
        },
        None => {},
    }
    let time = match notification.time {
        Some(t) => t,
        None => 0,
    };
    let mut k = str_cat("fallback:", signed_decimal_string(time).as_str());
    k.append(":");
    k.append(notification.topic.as_str());
    k.append(":");
    k.append(notification.message.as_str());
    k
}

/// The title a notification is shown with: its own when not blank, else
/// `ntfy`.
pub fn notification_title(title: &Option<String>) -> (r: String)
    ensures
        r@ == match title {
            Some(t) if trim(t@).len() > 0 => t@,
            _ => "ntfy"@,
        },
{
    match title {
        Some(t) => {
            if trim_chars(chars_of(t.as_str()).as_slice()).len() > 0 {
                t.clone()
            } else {
                String::from_str("ntfy")
            }
        },
        None => String::from_str("ntfy"),
    }
}

/// The keys of the notifications seen most recently, oldest first.
#[derive(Debug)]
pub struct SeenNotifications {
    order: Vec<String>,
}

impl View for SeenNotifications {
    type V = Seq<Seq<char>>;

    closed spec fn view(&self) -> Seq<Seq<char>> {
        self.order.deep_view()
    }
}

/// No key is listed twice.
pub open spec fn distinct(s: Seq<Seq<char>>) -> bool {
    forall|i: int, j: int| 0 <= i < j < s.len() ==> #[trigger] s[i] != #[trigger] s[j]
}

/// The keys after a key is marked: a new key is appended, and the oldest
/// is forgotten once more than the limit are held.
pub open spec fn spec_after_mark(seen: Seq<Seq<char>>, key: Seq<char>) -> Seq<Seq<char>> {
    if seen.contains(key) {
        seen
    } else {
        let pushed = seen.push(key);
        if pushed.len() > SEEN_NOTIFICATION_LIMIT {
            pushed.drop_first()
        } else {
            pushed
        }
    }
}

impl SeenNotifications {
    /// The invariant: distinct keys, at most the limit of them.
    pub open spec fn wf(&self) -> bool {
        distinct(self@) && self@.len() <= SEEN_NOTIFICATION_LIMIT
    }

    pub fn new() -> (r: SeenNotifications)
        ensures
            r.wf(),
            r@ == Seq::<Seq<char>>::empty(),
    {
        let r = SeenNotifications { order: Vec::new() };
        assert(r@ =~= Seq::<Seq<char>>::empty());
        r
    }

    /// Whether the key was seen.
    pub fn contains(&self, key: &str) -> (r: bool)
        ensures
            r == self@.contains(key@),
    {
        let ghost v = self@;
        let mut i: usize = 0;
        while i < self.order.len()
            invariant
                v == self@,
                v == self.order.deep_view(),
                i <= self.order@.len(),
                forall|j: int| 0 <= j < i ==> v[j] != key@,
            decreases self.order@.len() - i,
        {
            if str_is(self.order[i].as_str(), key) {
                assert(v[i as int] == key@);
                return true;
            }
            i = i + 1;
        }
        false
    }

    /// Remembers the key; `true` when it was not seen before.
    pub fn mark(&mut self, key: String) -> (r: bool)
        requires
            old(self).wf(),
        ensures
            final(self).wf(),
            r == !old(self)@.contains(key@),
            final(self)@ == spec_after_mark(old(self)@, key@),
    {
        if self.contains(key.as_str()) {
            return false;
        }
        let ghost before = self@;
        let ghost k = key@;
        self.order.push(key);
        proof {
            assert(self@ =~= before.push(k));
            assert forall|i: int, j: int| 0 <= i < j < self@.len() implies #[trigger] self@[i]
                != #[trigger] self@[j] by {
                if j == before.len() {
                    assert(self@[i] == before[i]);
                    assert(before.contains(before[i]));
                }
            }
        }
        if self.order.len() > SEEN_NOTIFICATION_LIMIT {
            let ghost pushed = self@;
            self.order.remove(0);
            proof {
                assert(self@ =~= pushed.drop_first());
                assert forall|i: int, j: int| 0 <= i < j < self@.len() implies #[trigger] self@[i]
                    != #[trigger] self@[j] by {
                    assert(self@[i] == pushed[i + 1]);
                    assert(self@[j] == pushed[j + 1]);
                }
            }
        }
        true
    }
}

/// What the listener remembers between notifications.
#[derive(Debug)]
pub struct NotificationState {
    seen: SeenNotifications,
}

impl View for NotificationState {
    type V = Seq<Seq<char>>;

    /// The keys seen most recently, oldest first.
    closed spec fn view(&self) -> Seq<Seq<char>> {
        self.seen@
    }
}

impl NotificationState {
    /// The invariant: at most the limit of distinct keys.
    pub closed spec fn wf(&self) -> bool {
        self.seen.wf()
    }

    pub fn new() -> (r: NotificationState)
        ensures
            r.wf(),
            r@ == Seq::<Seq<char>>::empty(),
    {
        NotificationState { seen: SeenNotifications::new() }
    }

    /// Whether a notification goes on to be shown: one with a blank message
    /// is dropped and its key is not kept; any other goes on the first time
    /// its key is seen, and its key is kept.
    pub fn accept(&mut self, notification: &Payload) -> (r: bool)
        requires
            old(self).wf(),
        ensures
            final(self).wf(),
            trim(notification.message@).len() == 0 ==> !r && final(self)@ == old(self)@,
            trim(notification.message@).len() > 0 ==> {
                let key = spec_notification_key(
                    opt_view(notification.id),
                    notification.time,
                    notification.topic@,
                    notification.message@,
                );
                &&& r == !old(self)@.contains(key)
                &&& final(self)@ == spec_after_mark(old(self)@, key)
            },
    {
        if trim_chars(chars_of(notification.message.as_str()).as_slice()).len() == 0 {
            return false;
        }
        self.seen.mark(notification_key(notification))
    }
}

impl Default for NotificationState {
    fn default() -> (r: NotificationState)
        ensures
            r.wf(),
            r@ == Seq::<Seq<char>>::empty(),
    {
        NotificationState::new()
    }
}

} // verus!
