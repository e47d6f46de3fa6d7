//! Texts that arrive in pieces, kept until they are complete.

use crate::channel::{error_text, plain_mention, ChatId, OutgoingContent, OutgoingMessage, ReplyView};
use crate::clock::{longer_than, passed};
use crate::split::{cat, cat4, joined, texts};
use crate::table::Table;
use vstd::prelude::*;
use vstd::string::*;

verus! {

/// A text that is still arriving.
#[derive(Debug)]
pub struct Buffer {
    pub text: String,
    /// When the last piece came.
    pub touched: u64,
}

/// A text that is still arriving, as plain values.
pub struct BufferView {
    pub text: Seq<char>,
    pub touched: u64,
}

impl View for Buffer {
    type V = BufferView;

    open spec fn view(&self) -> BufferView {
        BufferView { text: self.text@, touched: self.touched }
    }
}

/// A text that is to be sent to a chat.
#[derive(Debug, Clone)]
pub struct Flushed {
    pub chat_id: ChatId,
    pub text: String,
}

/// A text that is to be sent to a chat, as plain values.
pub struct FlushedView {
    pub chat_id: Seq<char>,
    pub text: Seq<char>,
}

impl View for Flushed {
    type V = FlushedView;

    open spec fn view(&self) -> FlushedView {
        FlushedView { chat_id: self.chat_id@, text: self.text@ }
    }
}

/// Some texts that are to be sent.
pub open spec fn flushed_views(v: Seq<Flushed>) -> Seq<FlushedView> {
    v.map_values(|f: Flushed| f@)
}

/// What has arrived of a chat's text.
pub open spec fn text_of(m: Map<Seq<char>, BufferView>, chat: Seq<char>) -> Seq<char> {
    if m.contains_key(chat) {
        m[chat].text
    } else {
        Seq::empty()
    }
}

/// The texts, with one more piece of a chat's.
pub open spec fn appended(
    m: Map<Seq<char>, BufferView>,
    chat: Seq<char>,
    piece: Seq<char>,
    now: u64,
) -> Map<Seq<char>, BufferView> {
    m.insert(chat, BufferView { text: text_of(m, chat) + piece, touched: now })
}

/// Whether nothing has come of a chat's text for too long.
pub open spec fn stale(
    m: Map<Seq<char>, BufferView>,
    chat: Seq<char>,
    now: u64,
    timeout: u64,
) -> bool {
    m.contains_key(chat) && longer_than(m[chat].touched, now, timeout)
}

/// The chats of whose texts nothing has come for too long.
pub open spec fn stale_set(m: Map<Seq<char>, BufferView>, now: u64, timeout: u64) -> Set<Seq<char>> {
    Set::new(|chat: Seq<char>| stale(m, chat, now, timeout))
}

/// Whether some texts are those of certain chats, each once, the empty ones left
/// out.
pub open spec fn are_texts_of(
    sent: Seq<FlushedView>,
    m: Map<Seq<char>, BufferView>,
    chats: Set<Seq<char>>,
) -> bool {
    &&& sent.no_duplicates()
    &&& forall|f: FlushedView| #[trigger]
        sent.contains(f) <==> chats.contains(f.chat_id) && m.contains_key(f.chat_id) && f.text
            == m[f.chat_id].text && f.text.len() > 0
}

/// The texts of all chats that are still arriving.
#[derive(Debug)]
pub struct StreamBuffers {
    buffers: Table<String, Buffer>,
}

impl View for StreamBuffers {
    type V = Map<Seq<char>, BufferView>;

    closed spec fn view(&self) -> Map<Seq<char>, BufferView> {
        self.buffers@
    }
}

impl StreamBuffers {
    /// Each chat has one text at most.
    pub closed spec fn wf(&self) -> bool {
        self.buffers.wf()
    }

    /// No texts.
    pub fn new() -> (r: Self)
        ensures
            r.wf(),
            r@ == Map::<Seq<char>, BufferView>::empty(),
    {
        StreamBuffers { buffers: Table::new() }
    }

    /// Adds a piece to a chat's text; how many characters have arrived.
    pub fn append(&mut self, chat: &str, piece: &str, now: u64) -> (r: usize)
        requires
            old(self).wf(),
        ensures
            final(self).wf(),
            final(self)@ == appended(old(self)@, chat@, piece@, now),
            r == final(self)@[chat@].text.len(),
    {
        let key = chat.to_string();
        let text = match self.buffers.get(&key) {
            Some(b) => cat(b.text.as_str(), piece),
            None => piece.to_string(),
        };
        proof {
            if !self.buffers@.contains_key(chat@) {
                assert(Seq::<char>::empty() + piece@ == piece@);
            }
        }
        let n: usize = text.as_str().unicode_len();
        self.buffers.insert(key, Buffer { text, touched: now });
        n
    }

    /// Takes a chat's text out.
    pub fn take(&mut self, chat: &str) -> (r: Option<String>)
        requires
            old(self).wf(),
        ensures
            final(self).wf(),
            final(self)@ == old(self)@.remove(chat@),
            match r {
                Some(text) => old(self)@.contains_key(chat@) && text@ == old(self)@[chat@].text,
                None => !old(self)@.contains_key(chat@),
            },
    {
        match self.buffers.remove(&chat.to_string()) {
            Some(b) => Some(b.text),
            None => None,
        }
    }

    /// Takes a chat's text out, if there is anything in it.
    pub fn finish(&mut self, chat: &str) -> (r: Vec<String>)
        requires
            old(self).wf(),
        ensures
            final(self).wf(),
            final(self)@ == old(self)@.remove(chat@),
            texts(r@) == if text_of(old(self)@, chat@).len() > 0 {
                seq![text_of(old(self)@, chat@)]
            } else {
                Seq::empty()
            },
    {
        let mut r: Vec<String> = Vec::new();
        match self.take(chat) {
            Some(text) => {
                if text.as_str().unicode_len() > 0 {
                    r.push(text);
                    assert(texts(r@) =~= seq![text@]);
                } else {
                    assert(texts(r@) =~= Seq::<Seq<char>>::empty());
                }
            },
            None => {
                assert(texts(r@) =~= Seq::<Seq<char>>::empty());
            },
        }
        r
    }

    /// How many texts there are.
    pub fn len(&self) -> (r: usize)
        requires
            self.wf(),
        ensures
            r == self@.dom().len(),
            self@.dom().finite(),
    {
        proof {
            self.buffers.lemma_keys();
        }
        self.buffers.len()
    }

    /// Takes out the texts of some chats, and those to send among them.
    fn take_each(&mut self, chats: &Vec<String>) -> (r: Vec<Flushed>)
        requires
            old(self).wf(),
            texts(chats@).no_duplicates(),
        ensures
            final(self).wf(),
            final(self)@ == old(self)@.remove_keys(texts(chats@).to_set()),
            are_texts_of(flushed_views(r@), old(self)@, texts(chats@).to_set()),
    {
        let ghost names = texts(chats@);
        let mut r: Vec<Flushed> = Vec::new();
        let mut i: usize = 0;
        proof {
            assert(names.take(0).to_set() =~= Set::<Seq<char>>::empty());
            assert(self@.remove_keys(Set::<Seq<char>>::empty()) =~= self@);
        }
        while i < chats.len()
            invariant
                i <= chats@.len(),
                names == texts(chats@),
                names.no_duplicates(),
                self.wf(),
                self@ == old(self)@.remove_keys(names.take(i as int).to_set()),
                are_texts_of(flushed_views(r@), old(self)@, names.take(i as int).to_set()),
            decreases chats@.len() - i,
        {
            let ghost chat = chats@[i as int]@;
            let ghost seen = names.take(i as int);
            let ghost more = names.take(i + 1);
            let ghost before = flushed_views(r@);
            proof {
                assert(more == seen.push(chat));
                assert(!seen.contains(chat)) by {
                    if seen.contains(chat) {
                        let j = seen.index_of(chat);
                        assert(names[j] == names[i as int]);
                    }
                }
                assert(more.to_set() =~= seen.to_set().insert(chat)) by {
                    assert forall|k: Seq<char>| more.contains(k) <==> seen.contains(k) || k
                        == chat by {
                        if seen.contains(k) {
                            assert(more[seen.index_of(k)] == k);
                        }
                        assert(more[i as int] == chat);
                    }
                }
            }
            let taken = self.take(chats[i].as_str());
            proof {
                assert(self@ =~= old(self)@.remove_keys(more.to_set()));
            }
            match taken {
                Some(text) => {
                    if text.as_str().unicode_len() > 0 {
                        let f = Flushed { chat_id: ChatId(chats[i].clone()), text };
                        proof {
                            assert(!before.contains(f@)) by {
                                assert(f@.chat_id == chat);
                            }
                        }
                        r.push(f);
                        proof {
                            assert(flushed_views(r@) == before.push(f@));
                            lemma_sent_push(before, f@, old(self)@, seen.to_set());
                        }
                    } else {
                        proof {
                            assert(are_texts_of(before, old(self)@, more.to_set()));
                        }
                    }
                },
                None => {
                    proof {
                        assert(are_texts_of(before, old(self)@, more.to_set()));
                    }
                },
            }
            i += 1;
        }
        proof {
            assert(names.take(chats@.len() as int) == names);
        }
        r
    }

    /// Takes out the texts of which nothing has come for longer than `timeout`.
    pub fn flush_expired(&mut self, now: u64, timeout: u64) -> (r: Vec<Flushed>)
        requires
            old(self).wf(),
        ensures
            final(self).wf(),
            final(self)@ == old(self)@.remove_keys(stale_set(old(self)@, now, timeout)),
            are_texts_of(
                flushed_views(r@),
                old(self)@,
                stale_set(old(self)@, now, timeout),
            ),
    {
        let mut chats: Vec<String> = Vec::new();
        let n: usize = self.buffers.len();
        let ghost keys = self.buffers.keys();
        let mut i: usize = 0;
        while i < n
            invariant
                i <= n,
                n == keys.len(),
                keys == self.buffers.keys(),
                self.wf(),
                texts(chats@).no_duplicates(),
                forall|k: Seq<char>| #[trigger]
                    texts(chats@).contains(k) <==> keys.take(i as int).contains(k)
                        && stale(self@, k, now, timeout),
            decreases n - i,
        {
            let key = self.buffers.key_at(i);
            let touched: u64 = self.buffers.value_at(i).touched;
            let ghost before = texts(chats@);
            let ghost seen = keys.take(i as int);
            let ghost more = keys.take(i + 1);
            proof {
                assert(more == seen.push(key@));
                assert forall|k: Seq<char>| more.contains(k) <==> seen.contains(k) || k == key@ by {
                    if seen.contains(k) {
                        assert(more[seen.index_of(k)] == k);
                    }
                    assert(more[i as int] == key@);
                }
                assert(!seen.contains(key@));
            }
            if passed(touched, now, timeout) {
                chats.push(key.clone());
                proof {
                    assert(texts(chats@) == before.push(key@));
                    assert forall|k: Seq<char>| before.push(key@).contains(k) <==> before.contains(
                        k,
                    ) || k == key@ by {
                        if before.contains(k) {
                            assert(before.push(key@)[before.index_of(k)] == k);
                        }
                        assert(before.push(key@)[before.len() as int] == key@);
                    }
                    assert(!before.contains(key@));
                }
            }
            proof {
                assert(stale(self@, key@, now, timeout) <==> longer_than(touched, now, timeout));
                assert forall|k: Seq<char>| #[trigger]
                    texts(chats@).contains(k) <==> more.contains(k) && stale(
                        self@,
                        k,
                        now,
                        timeout,
                    ) by {
                    assert(before.contains(k) <==> seen.contains(k) && stale(
                        self@,
                        k,
                        now,
                        timeout,
                    ));
                    assert(more.contains(k) <==> seen.contains(k) || k == key@);
                }
            }
            i += 1;
        }
        proof {
            self.buffers.lemma_keys();
            assert(keys.take(n as int) == keys);
            assert forall|k: Seq<char>| #[trigger]
                texts(chats@).to_set().contains(k) <==> stale_set(
                    self@,
                    now,
                    timeout,
                ).contains(k) by {
                assert(texts(chats@).to_set().contains(k) <==> texts(
                    chats@,
                ).contains(k));
                if self@.dom().contains(k) {
                    assert(keys.to_set().contains(k));
                }
            }
            assert(texts(chats@).to_set() =~= stale_set(self@, now, timeout));
        }
        self.take_each(&chats)
    }

    /// Where the oldest text stands.
    fn oldest(&self) -> (r: usize)
        requires
            self.wf(),
            self.buffers.keys().len() > 0,
        ensures
            r < self.buffers.keys().len(),
            forall|chat: Seq<char>| #[trigger]
                self@.contains_key(chat) ==> self@[self.buffers.keys()[r as int]].touched
                    <= self@[chat].touched,
    {
        let n: usize = self.buffers.len();
        let ghost keys = self.buffers.keys();
        let mut best: usize = 0;
        let mut i: usize = 1;
        while i < n
            invariant
                1 <= i <= n,
                best < i,
                n == keys.len(),
                keys == self.buffers.keys(),
                self.wf(),
                forall|j: int|
                    0 <= j < i ==> self@[keys[best as int]].touched <= self@[
                        #[trigger] keys[j]
                    ].touched,
            decreases n - i,
        {
            if self.buffers.value_at(i).touched < self.buffers.value_at(best).touched {
                best = i;
            }
            i += 1;
        }
        proof {
            self.buffers.lemma_keys();
            assert forall|chat: Seq<char>| #[trigger] self@.contains_key(chat) implies self@[
                keys[best as int]
            ].touched <= self@[chat].touched by {
                assert(keys.to_set().contains(chat));
                let j = keys.index_of(chat);
                assert(keys[j] == chat);
            }
        }
        best
    }

    /// Where there are more than `max` texts, takes out as many of the oldest as
    /// there are too many.
    pub fn evict(&mut self, max: usize) -> (r: Vec<Flushed>)
        requires
            old(self).wf(),
        ensures
            final(self).wf(),
            is_eviction(old(self)@, final(self)@, max as int),
            are_texts_of(
                flushed_views(r@),
                old(self)@,
                old(self)@.dom().difference(final(self)@.dom()),
            ),
    {
        let ghost start = self@;
        let mut r: Vec<Flushed> = Vec::new();
        proof {
            self.buffers.lemma_keys();
            assert(start.dom().difference(start.dom()) =~= Set::<Seq<char>>::empty());
            assert(start.remove_keys(Set::<Seq<char>>::empty()) =~= start);
            assert(flushed_views(r@) =~= Seq::<FlushedView>::empty());
        }
        while self.buffers.len() > max
            invariant
                self.wf(),
                start == old(self)@,
                start.dom().finite(),
                self@.submap_of(start),
                start.dom().len() > max ==> self@.dom().len() >= max,
                start.dom().len() <= max ==> self@ == start,
                forall|a: Seq<char>, b: Seq<char>|
                    #![trigger start.dom().contains(a), self@.dom().contains(b)]
                    start.dom().contains(a) && !self@.dom().contains(a) && self@.dom().contains(b)
                        ==> start[a].touched <= start[b].touched,
                are_texts_of(
                    flushed_views(r@),
                    start,
                    start.dom().difference(self@.dom()),
                ),
            decreases self.buffers.keys().len(),
        {
            let at: usize = self.oldest();
            let chat = self.buffers.key_at(at).clone();
            let ghost m = self@;
            let ghost gone = start.dom().difference(m.dom());
            let ghost before = flushed_views(r@);
            proof {
                self.buffers.lemma_keys();
            }
            let taken = self.take(chat.as_str());
            proof {
                self.buffers.lemma_keys();
                assert(self@.dom() =~= m.dom().remove(chat@));
                assert(start.dom().difference(self@.dom()) =~= gone.insert(chat@));
                assert(m.dom().contains(chat@));
                assert(start.dom().contains(chat@));
                assert(start[chat@] == m[chat@]);
                assert forall|a: Seq<char>, b: Seq<char>|
                    #![trigger start.dom().contains(a), self@.dom().contains(b)]
                    start.dom().contains(a) && !self@.dom().contains(a) && self@.dom().contains(
                        b,
                    ) implies start[a].touched <= start[b].touched by {
                    assert(m.dom().contains(b));
                    assert(m.contains_key(b));
                    assert(start.dom().contains(b));
                    assert(start[b] == m[b]);
                    if a == chat@ {
                    } else {
                        assert(!m.dom().contains(a));
                    }
                }
            }
            match taken {
                Some(text) => {
                    if text.as_str().unicode_len() > 0 {
                        let f = Flushed { chat_id: ChatId(chat), text };
                        proof {
                            assert(!before.contains(f@)) by {
                                assert(!gone.contains(f@.chat_id));
                            }
                        }
                        r.push(f);
                        proof {
                            assert(flushed_views(r@) == before.push(f@));
                            lemma_sent_push(before, f@, start, gone);
                        }
                    } else {
                        proof {
                            assert(are_texts_of(before, start, gone.insert(chat@)));
                        }
                    }
                },
                None => {},
            }
        }
        proof {
            self.buffers.lemma_keys();
        }
        r
    }
}

/// Whether of some texts just so many were taken out that at most `max` are
/// left, and none that is left is older than one that was taken.
pub open spec fn is_eviction(
    before: Map<Seq<char>, BufferView>,
    after: Map<Seq<char>, BufferView>,
    max: int,
) -> bool {
    &&& after.submap_of(before)
    &&& if before.dom().len() > max {
        after.dom().len() == max
    } else {
        after == before
    }
    &&& forall|a: Seq<char>, b: Seq<char>|
        #![trigger before.dom().contains(a), after.dom().contains(b)]
        before.dom().contains(a) && !after.dom().contains(a) && after.dom().contains(b)
            ==> before[a].touched <= before[b].touched
}

/// One more text to send.
proof fn lemma_sent_push(
    sent: Seq<FlushedView>,
    f: FlushedView,
    m: Map<Seq<char>, BufferView>,
    chats: Set<Seq<char>>,
)
    requires
        are_texts_of(sent, m, chats),
        !chats.contains(f.chat_id),
        m.contains_key(f.chat_id),
        f.text == m[f.chat_id].text,
        f.text.len() > 0,
    ensures
        are_texts_of(sent.push(f), m, chats.insert(f.chat_id)),
{
    let after = sent.push(f);
    assert(!sent.contains(f));
    assert forall|g: FlushedView| #[trigger]
        after.contains(g) <==> chats.insert(f.chat_id).contains(g.chat_id) && m.contains_key(
            g.chat_id,
        ) && g.text == m[g.chat_id].text && g.text.len() > 0 by {
        assert(after.contains(g) <==> sent.contains(g) || g == f) by {
            if sent.contains(g) {
                assert(after[sent.index_of(g)] == g);
            }
            assert(after[sent.len() as int] == f);
        }
        assert(sent.contains(g) <==> chats.contains(g.chat_id) && m.contains_key(g.chat_id)
            && g.text == m[g.chat_id].text && g.text.len() > 0);
    }
}

// ---------------------------------------------------------------------------
// Sending texts once they are complete
// ---------------------------------------------------------------------------

/// What is to be sent to a chat at once when something goes out to its user.
pub open spec fn sent_now(
    m: Map<Seq<char>, BufferView>,
    chat: Seq<char>,
    content: ReplyView,
) -> Seq<Seq<char>> {
    match content {
        ReplyView::Text(text) => seq![text],
        ReplyView::StreamChunk(text) => Seq::empty(),
        ReplyView::StreamEnd => if text_of(m, chat).len() > 0 {
            seq![text_of(m, chat)]
        } else {
            Seq::empty()
        },
        ReplyView::Error(error) => seq![error_text(error)],
        ReplyView::Mention { target_bot, target_channel_name, message } => seq![
            plain_mention(target_bot, message),
        ],
    }
}

/// What is kept when something goes out to a user.
pub open spec fn kept_after(
    m: Map<Seq<char>, BufferView>,
    chat: Seq<char>,
    content: ReplyView,
    now: u64,
) -> Map<Seq<char>, BufferView> {
    match content {
        ReplyView::StreamChunk(text) => appended(m, chat, text, now),
        ReplyView::StreamEnd => m.remove(chat),
        _ => m,
    }
}

/// Takes something that goes out to a user: what is to be sent at once.
pub fn handle_outgoing(
    buffers: &mut StreamBuffers,
    chat_id: &ChatId,
    msg: OutgoingMessage,
    now: u64,
) -> (r: Vec<String>)
    requires
        old(buffers).wf(),
    ensures
        final(buffers).wf(),
        texts(r@) == sent_now(old(buffers)@, chat_id@, msg@),
        final(buffers)@ == kept_after(old(buffers)@, chat_id@, msg@, now),
{
    let mut r: Vec<String> = Vec::new();
    match msg.content {
        OutgoingContent::Text(text) => {
            r.push(text);
        },
        OutgoingContent::StreamChunk(text) => {
            let _count: usize = buffers.append(chat_id.0.as_str(), text.as_str(), now);
        },
        OutgoingContent::StreamEnd => {
            return buffers.finish(chat_id.0.as_str());
        },
        OutgoingContent::Error(error) => {
            r.push(cat("Error: ", error.as_str()));
        },
        OutgoingContent::Mention { target_bot, target_channel_name: _, message } => {
            r.push(cat4("@", target_bot.as_str(), " ", message.as_str()));
        },
    }
    assert(texts(r@) =~= sent_now(old(buffers)@, chat_id@, msg@));
    r
}

/// The texts after some pieces of a chat's have come, each at its moment.
pub open spec fn after_pieces(
    m: Map<Seq<char>, BufferView>,
    chat: Seq<char>,
    pieces: Seq<Seq<char>>,
    moments: Seq<u64>,
) -> Map<Seq<char>, BufferView>
    decreases pieces.len(),
{
    if pieces.len() == 0 {
        m
    } else {
        appended(
            after_pieces(m, chat, pieces.drop_last(), moments.drop_last()),
            chat,
            pieces.last(),
            moments.last(),
        )
    }
}

/// Nothing of a text is lost or changed on its way: what is kept of a chat after
/// some pieces is what was there before and the pieces in their order, and no
/// other chat's text is touched.
pub proof fn pieces_add_up(
    m: Map<Seq<char>, BufferView>,
    chat: Seq<char>,
    pieces: Seq<Seq<char>>,
    moments: Seq<u64>,
)
    ensures
        text_of(after_pieces(m, chat, pieces, moments), chat) == text_of(m, chat)
            + joined(pieces, Seq::empty()),
        after_pieces(m, chat, pieces, moments).remove(chat) == m.remove(chat),
    decreases pieces.len(),
{
    let kept = after_pieces(m, chat, pieces, moments);
    if pieces.len() == 0 {
        assert(text_of(m, chat) + Seq::<char>::empty() == text_of(m, chat));
    } else {
        let front = pieces.drop_last();
        pieces_add_up(m, chat, front, moments.drop_last());
        let middle = after_pieces(m, chat, front, moments.drop_last());
        assert(kept.remove(chat) =~= middle.remove(chat));
        if front.len() == 0 {
            assert(joined(front, Seq::empty()) == Seq::<char>::empty());
            assert(text_of(m, chat) + pieces[0] == text_of(m, chat) + Seq::<char>::empty()
                + pieces.last());
        } else {
            assert(text_of(m, chat) + (joined(front, Seq::empty()) + Seq::<
                char,
            >::empty() + pieces.last()) == text_of(m, chat) + joined(
                front,
                Seq::empty(),
            ) + pieces.last());
        }
    }
}

/// What is no part of a text that is still arriving is sent at once and as it is,
/// an error as an error and a mention by name; and it leaves the texts alone that
/// are still arriving, its own chat's included.
pub proof fn whole_messages_are_sent_at_once(
    m: Map<Seq<char>, BufferView>,
    chat: Seq<char>,
    text: Seq<char>,
    bot: Seq<char>,
    channel: Option<Seq<char>>,
    now: u64,
)
    ensures
        ({
            let mention = ReplyView::Mention {
                target_bot: bot,
                target_channel_name: channel,
                message: text,
            };
            &&& sent_now(m, chat, ReplyView::Text(text)) == seq![text]
            &&& sent_now(m, chat, ReplyView::Error(text)) == seq!["Error: "@ + text]
            &&& sent_now(m, chat, mention) == seq!["@"@ + bot + " "@ + text]
            &&& kept_after(m, chat, ReplyView::Text(text), now) == m
            &&& kept_after(m, chat, ReplyView::Error(text), now) == m
            &&& kept_after(m, chat, mention, now) == m
        }),
{
}

/// A text that arrives in pieces is sent when it is complete, in one message and
/// whole, and nothing of it before; nothing is sent where nothing came. Then
/// nothing of it is kept, and the texts of other chats stay as they are.
pub proof fn texts_are_sent_when_complete(
    m: Map<Seq<char>, BufferView>,
    chat: Seq<char>,
    piece: Seq<char>,
    now: u64,
)
    ensures
        sent_now(m, chat, ReplyView::StreamChunk(piece)).len() == 0,
        kept_after(m, chat, ReplyView::StreamChunk(piece), now) == m.insert(
            chat,
            BufferView {
                text: (if m.contains_key(chat) {
                    m[chat].text
                } else {
                    Seq::empty()
                }) + piece,
                touched: now,
            },
        ),
        m.contains_key(chat) && m[chat].text.len() > 0 ==> sent_now(m, chat, ReplyView::StreamEnd)
            == seq![m[chat].text],
        !m.contains_key(chat) || m[chat].text.len() == 0 ==> sent_now(
            m,
            chat,
            ReplyView::StreamEnd,
        ).len() == 0,
        kept_after(m, chat, ReplyView::StreamEnd, now) == m.remove(chat),
{
}

/// A text stands still for too long once its last piece came more than the limit
/// ago.
pub proof fn texts_stand_still_after_their_last_piece(
    m: Map<Seq<char>, BufferView>,
    chat: Seq<char>,
    now: u64,
    timeout: u64,
)
    ensures
        stale_set(m, now, timeout).contains(chat) <==> m.contains_key(chat) && m[chat].touched
            + timeout < now,
{
}

/// Texts that are sent before they are complete are sent to their own chats and
/// whole, each once, and empty ones are not sent.
pub proof fn flushed_texts_are_whole(
    sent: Seq<FlushedView>,
    m: Map<Seq<char>, BufferView>,
    chats: Set<Seq<char>>,
    i: int,
    j: int,
    chat: Seq<char>,
)
    requires
        are_texts_of(sent, m, chats),
    ensures
        0 <= i < sent.len() ==> chats.contains(sent[i].chat_id) && m.contains_key(sent[i].chat_id)
            && sent[i].text == m[sent[i].chat_id].text && sent[i].text.len() > 0,
        0 <= i < j < sent.len() ==> sent[i].chat_id != sent[j].chat_id,
        chats.contains(chat) && m.contains_key(chat) && m[chat].text.len() > 0 ==> exists|k: int|
            0 <= k < sent.len() && #[trigger] sent[k] == (FlushedView {
                chat_id: chat,
                text: m[chat].text,
            }),
{
    if 0 <= i < sent.len() {
        assert(sent.contains(sent[i]));
    }
    if 0 <= i < j < sent.len() {
        assert(sent.contains(sent[j]));
        if sent[i].chat_id == sent[j].chat_id {
            assert(sent[i] == sent[j]);
        }
    }
    if chats.contains(chat) && m.contains_key(chat) && m[chat].text.len() > 0 {
        let f = FlushedView { chat_id: chat, text: m[chat].text };
        assert(sent.contains(f));
    }
}

/// Where there are too many texts just so many are taken out that the limit is
/// kept, the longest untouched first, and where there are not too many none is.
/// Those that are kept are as they were.
pub proof fn the_oldest_texts_are_taken_out(
    before: Map<Seq<char>, BufferView>,
    after: Map<Seq<char>, BufferView>,
    max: int,
    gone: Seq<char>,
    kept: Seq<char>,
)
    requires
        is_eviction(before, after, max),
    ensures
        before.dom().len() <= max ==> after == before,
        before.dom().len() > max ==> after.dom().len() == max,
        after.contains_key(kept) ==> before.contains_key(kept) && after[kept] == before[kept],
        before.contains_key(gone) && !after.contains_key(gone) && after.contains_key(kept)
            ==> before[gone].touched <= before[kept].touched,
{
    assert(after.submap_of(before));
    if after.contains_key(kept) {
        assert(after.dom().contains(kept));
        assert(before.dom().contains(kept));
        assert(after[kept] == before[kept]);
    }
    if before.contains_key(gone) {
        assert(before.dom().contains(gone));
    }
}

/// What was taken in of a chat's text is what comes out, once: a piece that was added
/// stands behind what was there, and what was taken out is gone.
pub proof fn pieces_come_out_as_they_went_in(
    b: &mut StreamBuffers,
    chat: &str,
    piece: &str,
    now: u64,
    count: usize,
    after: &mut StreamBuffers,
    out: Vec<String>,
    other: Seq<char>,
)
    requires
        call_ensures(StreamBuffers::append, (b, chat, piece, now), count),
        *old(after) == *final(b),
        call_ensures(StreamBuffers::finish, (after, chat), out),
    ensures
        ({
            let before = if old(b)@.contains_key(chat@) {
                old(b)@[chat@].text
            } else {
                Seq::empty()
            };
            &&& count == before.len() + piece@.len()
            &&& count > 0 ==> out@.len() == 1 && out@[0]@ == before + piece@
            &&& count == 0 ==> out@.len() == 0
            &&& !final(after)@.contains_key(chat@)
            &&& other != chat@ ==> (final(after)@.contains_key(other) <==> old(b)@.contains_key(
                other,
            )) && final(after)@[other] == old(b)@[other]
        }),
{
    assert(texts(out@).len() == out@.len());
    if count > 0 {
        assert(texts(out@)[0] == out@[0]@);
    }
}

/// A text that is taken is the chat's, and is there no longer; and the texts are
/// counted.
pub proof fn taken_texts_are_gone(
    b: &mut StreamBuffers,
    chat: &str,
    taken: Option<String>,
    c: &StreamBuffers,
    n: usize,
)
    ensures
        call_ensures(StreamBuffers::take, (b, chat), taken) ==> {
            &&& taken is Some <==> old(b)@.contains_key(chat@)
            &&& taken is Some ==> taken->0@ == old(b)@[chat@].text
            &&& final(b)@ == old(b)@.remove(chat@)
        },
        call_ensures(StreamBuffers::len, (c,), n) ==> n == c@.dom().len(),
{
}

}
