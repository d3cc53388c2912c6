//! Named push channels from the native side to the web view.
//!
//! A channel is identified by a UUID minted when it is opened and addressed
//! by the name the interface chose. Opening a name that is already taken
//! closes the old channel and takes its place.

use vstd::prelude::*;
use vstd::seq_lib::seq_to_set_is_finite;
use vstd::set_lib::{lemma_int_range, lemma_len_subset, set_int_range};
use crate::codec::{channel_script, format_channel_message};
use crate::ipc::CallbackFn;
use crate::text::{decimal, push_decimal};

verus! {

/// A channel's UUID, as the 128-bit integer of its sixteen bytes read
/// big-endian.
#[derive(Debug, Clone, Copy, PartialEq, Eq, Structural)]
pub struct ChannelId(pub u128);

/// The window a channel delivers to.
#[derive(Debug, Clone, Copy, PartialEq, Eq, Structural)]
pub struct WindowId(pub u32);

/// Divides out the bytes after byte `k` (0-based) of the UUID's last eight.
pub open spec fn byte_divisor(k: int) -> u128 {
    if k == 0 { 0x0100_0000_0000_0000 }
    else if k == 1 { 0x0001_0000_0000_0000 }
    else if k == 2 { 0x0000_0100_0000_0000 }
    else if k == 3 { 0x0000_0001_0000_0000 }
    else if k == 4 { 0x0000_0000_0100_0000 }
    else if k == 5 { 0x0000_0000_0001_0000 }
    else if k == 6 { 0x0000_0000_0000_0100 }
    else { 1 }
}

/// The first field of the UUID: its first four bytes.
pub open spec fn id_d1(v: u128) -> nat {
    (v / 0x1_0000_0000_0000_0000_0000_0000) as nat
}

/// The second field: bytes five and six.
pub open spec fn id_d2(v: u128) -> nat {
    ((v / 0x1_0000_0000_0000_0000_0000) % 0x1_0000) as nat
}

/// The third field: bytes seven and eight.
pub open spec fn id_d3(v: u128) -> nat {
    ((v / 0x1_0000_0000_0000_0000) % 0x1_0000) as nat
}

/// Byte `k` of the fourth field, the UUID's last eight bytes.
pub open spec fn id_byte(v: u128, k: int) -> nat {
    ((v / byte_divisor(k)) % 0x100) as nat
}

/// The first `n` bytes of the fourth field, in decimal, comma-separated.
pub open spec fn id_bytes_json(v: u128, n: nat) -> Seq<char>
    decreases n,
{
    if n == 0 {
        seq![]
    } else if n == 1 {
        decimal(id_byte(v, 0))
    } else {
        id_bytes_json(v, (n - 1) as nat) + ","@ + decimal(id_byte(v, n - 1))
    }
}

/// The UUID as the interface sees it: `[d1,d2,d3,[b0,...,b7]]`.
pub open spec fn id_json(v: u128) -> Seq<char> {
    "["@ + decimal(id_d1(v)) + ","@ + decimal(id_d2(v)) + ","@ + decimal(id_d3(v)) + ",["@
        + id_bytes_json(v, 8) + "]]"@
}

/// The UUID whose fields are `d1`, `d2`, `d3` and the eight bytes `d4`.
pub open spec fn id_from_fields(d1: int, d2: int, d3: int, d4: Seq<int>) -> u128 {
    (d1 * 0x1_0000_0000_0000_0000_0000_0000 + d2 * 0x1_0000_0000_0000_0000_0000
        + d3 * 0x1_0000_0000_0000_0000 + d4[0] * byte_divisor(0) + d4[1] * byte_divisor(1)
        + d4[2] * byte_divisor(2) + d4[3] * byte_divisor(3) + d4[4] * byte_divisor(4)
        + d4[5] * byte_divisor(5) + d4[6] * byte_divisor(6) + d4[7] * byte_divisor(7)) as u128
}

/// `{"acceptId":<id>,"token":<token>,"type":"accept"}`
pub open spec fn accept_json(v: u128, token: nat) -> Seq<char> {
    "{\"acceptId\":"@ + id_json(v) + ",\"token\":"@ + decimal(token) + ",\"type\":\"accept\"}"@
}

/// `{"channelId":<id>,"data":<data>,"error":<error>,"type":"message"}`
pub open spec fn message_json(v: u128, data: Seq<char>, error: Seq<char>) -> Seq<char> {
    "{\"channelId\":"@ + id_json(v) + ",\"data\":"@ + data + ",\"error\":"@ + error
        + ",\"type\":\"message\"}"@
}

/// `{"channelId":<id>,"type":"close"}`
pub open spec fn close_json(v: u128) -> Seq<char> {
    "{\"channelId\":"@ + id_json(v) + ",\"type\":\"close\"}"@
}

/// A script for the web view of one window.
pub struct Delivery {
    pub window: WindowId,
    pub script: String,
}

impl Delivery {
    /// The delivery as plain values: its window and its script.
    pub open spec fn view(&self) -> (WindowId, Seq<char>) {
        (self.window, self.script@)
    }
}

/// One open channel.
#[derive(Debug, Clone, Copy, PartialEq, Eq, Structural)]
pub struct Channel {
    pub id: ChannelId,
    pub window: WindowId,
}

/// Relies on `uuid::Uuid::new_v4` and `Uuid::as_u128`: a fresh random UUID.
#[verifier::external_body]
pub(crate) fn new_channel_id() -> (r: ChannelId) {
    ChannelId(uuid::Uuid::new_v4().as_u128())
}

fn byte_divisor_exec(k: usize) -> (d: u128)
    requires
        k < 8,
    ensures
        d == byte_divisor(k as int),
{
    if k == 0 { 0x0100_0000_0000_0000 }
    else if k == 1 { 0x0001_0000_0000_0000 }
    else if k == 2 { 0x0000_0100_0000_0000 }
    else if k == 3 { 0x0000_0001_0000_0000 }
    else if k == 4 { 0x0000_0000_0100_0000 }
    else if k == 5 { 0x0000_0000_0001_0000 }
    else if k == 6 { 0x0000_0000_0000_0100 }
    else { 1 }
}

/// Appends the UUID `v` in the form `[d1,d2,d3,[b0,...,b7]]`.
fn push_id_json(out: &mut String, v: u128)
    ensures
        final(out)@ == old(out)@ + id_json(v),
{
    let ghost start = out@;
    out.append("[");
    push_decimal(out, (v / 0x1_0000_0000_0000_0000_0000_0000) as u64);
    out.append(",");
    push_decimal(out, ((v / 0x1_0000_0000_0000_0000_0000) % 0x1_0000) as u64);
    out.append(",");
    push_decimal(out, ((v / 0x1_0000_0000_0000_0000) % 0x1_0000) as u64);
    out.append(",[");
    let ghost before_bytes = out@;
    let mut k: usize = 0;
    while k < 8
        invariant
            k <= 8,
            out@ == before_bytes + id_bytes_json(v, k as nat),
        decreases 8 - k,
    {
        if k > 0 {
            out.append(",");
        }
        push_decimal(out, ((v / byte_divisor_exec(k)) % 0x100) as u64);
        proof {
            if k == 0 {
                assert(id_bytes_json(v, 0) =~= Seq::<char>::empty());
            }
        }
        k = k + 1;
    }
    out.append("]]");
    proof {
        assert(out@ =~= start + id_json(v));
    }
}

impl Channel {
    /// A channel with the UUID `id` that delivers to `window`.
    pub fn new(id: ChannelId, window: WindowId) -> (r: Channel)
        ensures
            r == (Channel { id, window }),
    {
        Channel { id, window }
    }

    /// Tells the interface that its open request `response_ch` was accepted
    /// and which UUID the channel carries.
    pub fn accept_request(&self, response_ch: usize) -> (r: Delivery)
        ensures
            r@ == (self.window, channel_script(accept_json(self.id.0, response_ch as nat))),
    {
        let mut json = String::from_str("{\"acceptId\":");
        push_id_json(&mut json, self.id.0);
        json.append(",\"token\":");
        push_decimal(&mut json, response_ch as u64);
        json.append(",\"type\":\"accept\"}");
        Delivery { window: self.window, script: format_channel_message(json.as_str()) }
    }

    fn send(&self, data: &str, error: &str) -> (r: Delivery)
        ensures
            r@ == (self.window, channel_script(message_json(self.id.0, data@, error@))),
    {
        let mut json = String::from_str("{\"channelId\":");
        push_id_json(&mut json, self.id.0);
        json.append(",\"data\":");
        json.append(data);
        json.append(",\"error\":");
        json.append(error);
        json.append(",\"type\":\"message\"}");
        Delivery { window: self.window, script: format_channel_message(json.as_str()) }
    }

    /// Pushes the value whose JSON text is `data`.
    pub fn send_message(&self, data: &str) -> (r: Delivery)
        ensures
            r@ == (self.window, channel_script(message_json(self.id.0, data@, "null"@))),
    {
        self.send(data, "null")
    }

    /// Pushes the error whose JSON text is `error`.
    pub fn send_error(&self, error: &str) -> (r: Delivery)
        ensures
            r@ == (self.window, channel_script(message_json(self.id.0, "null"@, error@))),
    {
        self.send("null", error)
    }

    /// Tells the interface that this channel is closed.
    pub fn send_close(&self) -> (r: Delivery)
        ensures
            r@ == (self.window, channel_script(close_json(self.id.0))),
    {
        let mut json = String::from_str("{\"channelId\":");
        push_id_json(&mut json, self.id.0);
        json.append(",\"type\":\"close\"}");
        Delivery { window: self.window, script: format_channel_message(json.as_str()) }
    }
}

/// Whether no channel of `registry` carries the UUID `id`.
pub open spec fn fresh_in(registry: Map<Seq<char>, Channel>, id: ChannelId) -> bool {
    forall|name: Seq<char>| #[trigger] registry.contains_key(name) ==> registry[name].id != id
}

/// What opening `name` on `window` with the UUID `id` sends, in order, as
/// (window, script) pairs: the close of the channel it replaces, if any, then
/// the acceptance that answers `token`.
pub open spec fn open_deliveries(
    registry: Map<Seq<char>, Channel>,
    name: Seq<char>,
    window: WindowId,
    token: nat,
    id: ChannelId,
) -> Seq<(WindowId, Seq<char>)> {
    (if registry.contains_key(name) {
        seq![(registry[name].window, channel_script(close_json(registry[name].id.0)))]
    } else {
        Seq::<(WindowId, Seq<char>)>::empty()
    }).push((window, channel_script(accept_json(id.0, token))))
}

/// A channel under its name.
pub struct ChannelEntry {
    pub name: String,
    pub channel: Channel,
}

/// The open channels, at most one per name, and every UUID ever given to
/// one of them.
pub struct Channels {
    channel_items: Vec<ChannelEntry>,
    issued: Vec<ChannelId>,
}

impl Channels {
    spec fn names_unique(&self) -> bool {
        forall|i: int, j: int|
            0 <= i < self.channel_items.len() && 0 <= j < self.channel_items.len() && i != j
                ==> #[trigger] self.channel_items[i].name@ != #[trigger] self.channel_items[j].name@
    }

    spec fn ids_issued(&self) -> bool {
        forall|i: int| 0 <= i < self.channel_items.len() ==> self.issued@.contains(#[trigger] self.channel_items[i].channel.id)
    }

    /// No two entries share a name, and every open channel's UUID was issued.
    pub closed spec fn wf(&self) -> bool {
        self.names_unique() && self.ids_issued()
    }

    /// The UUIDs given to channels so far, replaced channels' included.
    pub closed spec fn issued(&self) -> Seq<ChannelId> {
        self.issued@
    }

    /// Every open channel carries an issued UUID.
    pub proof fn lemma_open_ids_issued(&self)
        requires
            self.wf(),
        ensures
            forall|name: Seq<char>| #[trigger] self@.contains_key(name) ==> self.issued().contains(self@[name].id),
    {
        assert forall|name: Seq<char>| #[trigger] self@.contains_key(name) implies self.issued().contains(self@[name].id) by {
            let i = self.index_of(name);
            assert(self.channel_items[i].name@ == name);
        }
    }

    spec fn holds_name(&self, name: Seq<char>) -> bool {
        exists|i: int| 0 <= i < self.channel_items.len() && #[trigger] self.channel_items[i].name@ == name
    }

    spec fn index_of(&self, name: Seq<char>) -> int {
        choose|i: int| 0 <= i < self.channel_items.len() && #[trigger] self.channel_items[i].name@ == name
    }

    /// The registry as a map from names to channels.
    pub closed spec fn view(&self) -> Map<Seq<char>, Channel> {
        Map::new(
            |name: Seq<char>| self.holds_name(name),
            |name: Seq<char>| self.channel_items[self.index_of(name)].channel,
        )
    }

    proof fn lemma_entry(&self, i: int)
        requires
            self.names_unique(),
            0 <= i < self.channel_items.len(),
        ensures
            self@.contains_key(self.channel_items[i].name@),
            self@[self.channel_items[i].name@] == self.channel_items[i].channel,
    {
        let name = self.channel_items[i].name@;
        assert(self.holds_name(name));
        let j = self.index_of(name);
        assert(self.channel_items[j].name@ == name);
    }

    /// An empty registry.
    pub fn new() -> (r: Channels)
        ensures
            r.wf(),
            r@ == Map::<Seq<char>, Channel>::empty(),
            r.issued() == Seq::<ChannelId>::empty(),
    {
        let r = Channels { channel_items: Vec::new(), issued: Vec::new() };
        assert(r@ =~= Map::<Seq<char>, Channel>::empty());
        r
    }

    fn find(&self, name: &str) -> (r: Option<usize>)
        requires
            self.names_unique(),
        ensures
            match r {
                Some(i) => i < self.channel_items.len() && self.channel_items[i as int].name@ == name@,
                None => !self@.contains_key(name@),
            },
    {
        let key = String::from_str(name);
        let mut i: usize = 0;
        while i < self.channel_items.len()
            invariant
                i <= self.channel_items.len(),
                key@ == name@,
                forall|j: int| 0 <= j < i ==> #[trigger] self.channel_items[j].name@ != name@,
            decreases self.channel_items.len() - i,
        {
            if self.channel_items[i].name == key {
                return Some(i);
            }
            i = i + 1;
        }
        None
    }

    /// The channel open under `name`, if any.
    pub fn get_channel(&self, name: &str) -> (r: Option<Channel>)
        requires
            self.wf(),
        ensures
            r == (if self@.contains_key(name@) { Some(self@[name@]) } else { None::<Channel> }),
    {
        match self.find(name) {
            Some(i) => {
                proof { self.lemma_entry(i as int); }
                Some(self.channel_items[i].channel)
            },
            None => None,
        }
    }

    /// The open channel whose UUID is `id`, if any.
    pub fn get_channel_by_id(&self, id: ChannelId) -> (r: Option<Channel>)
        requires
            self.wf(),
        ensures
            match r {
                Some(c) => c.id == id && exists|name: Seq<char>|
                    #[trigger] self@.contains_key(name) && self@[name] == c,
                None => forall|name: Seq<char>|
                    #[trigger] self@.contains_key(name) ==> self@[name].id != id,
            },
    {
        let mut i: usize = 0;
        while i < self.channel_items.len()
            invariant
                self.wf(),
                i <= self.channel_items.len(),
                forall|j: int| 0 <= j < i ==> #[trigger] self.channel_items[j].channel.id != id,
            decreases self.channel_items.len() - i,
        {
            if self.channel_items[i].channel.id == id {
                proof { self.lemma_entry(i as int); }
                return Some(self.channel_items[i].channel);
            }
            i = i + 1;
        }
        proof {
            assert forall|name: Seq<char>| #[trigger] self@.contains_key(name) implies self@[name].id != id by {
                let j = self.index_of(name);
                assert(self.channel_items[j].name@ == name);
            }
        }
        None
    }

    /// Opens a channel under `name` with the UUID `id`, bound to `window`.
    /// A channel already open under that name is told first that it is
    /// closed, then replaced; the new channel's acceptance, answering
    /// `response_id`, comes last.
    pub fn open_channel_with_id(
        &mut self,
        name: &str,
        window: WindowId,
        response_id: CallbackFn,
        id: ChannelId,
    ) -> (r: Vec<Delivery>)
        requires
            old(self).wf(),
        ensures
            final(self).wf(),
            final(self)@ == old(self)@.insert(name@, Channel { id, window }),
            final(self).issued() == old(self).issued().push(id),
            r@.map_values(|d: Delivery| d@) == open_deliveries(old(self)@, name@, window, response_id.0 as nat, id),
    {
        let mut deliveries: Vec<Delivery> = Vec::new();
        let channel = Channel::new(id, window);
        let ghost before = *self;
        self.issued.push(id);
        let ghost issued_now = self.issued@;
        match self.find(name) {
            Some(i) => {
                proof { self.lemma_entry(i as int); }
                deliveries.push(self.channel_items[i].channel.send_close());
                self.channel_items.set(i, ChannelEntry { name: String::from_str(name), channel });
                proof {
                    assert(self.names_unique()) by {
                        assert forall|a: int, b: int|
                            0 <= a < self.channel_items.len() && 0 <= b < self.channel_items.len() && a != b
                            implies #[trigger] self.channel_items[a].name@ != #[trigger] self.channel_items[b].name@ by {
                            assert(before.channel_items[a].name@ != before.channel_items[b].name@);
                        }
                    }
                    self.lemma_view_after_set(before, i as int, name@, channel);
                }
            },
            None => {
                self.channel_items.push(ChannelEntry { name: String::from_str(name), channel });
                proof {
                    assert(self.names_unique()) by {
                        assert forall|a: int, b: int|
                            0 <= a < self.channel_items.len() && 0 <= b < self.channel_items.len() && a != b
                            implies #[trigger] self.channel_items[a].name@ != #[trigger] self.channel_items[b].name@ by {
                            if a < before.channel_items.len() && b < before.channel_items.len() {
                                assert(before.channel_items[a].name@ != before.channel_items[b].name@);
                            } else if a < before.channel_items.len() {
                                before.lemma_entry(a);
                            } else {
                                before.lemma_entry(b);
                            }
                        }
                    }
                    self.lemma_view_after_push(before, name@, channel);
                }
            },
        }
        proof {
            assert(self.ids_issued()) by {
                assert forall|a: int| 0 <= a < self.channel_items.len()
                    implies self.issued@.contains(#[trigger] self.channel_items[a].channel.id) by {
                    if self.channel_items[a].channel.id == id {
                        assert(self.issued@[self.issued@.len() - 1] == id);
                    } else {
                        assert(a < before.channel_items.len() && self.channel_items[a] == before.channel_items[a]);
                        let k = choose|k: int| 0 <= k < before.issued@.len() && before.issued@[k] == before.channel_items[a].channel.id;
                        assert(self.issued@[k] == before.issued@[k]);
                    }
                }
            }
        }
        let accept = channel.accept_request(response_id.0);
        deliveries.push(accept);
        proof {
            assert(deliveries@.map_values(|d: Delivery| d@) =~= open_deliveries(before@, name@, window, response_id.0 as nat, id));
        }
        deliveries
    }

    fn was_issued(&self, id: ChannelId) -> (r: bool)
        ensures
            r == self.issued().contains(id),
    {
        let mut k: usize = 0;
        while k < self.issued.len()
            invariant
                k <= self.issued@.len(),
                forall|j: int| 0 <= j < k ==> self.issued@[j] != id,
            decreases self.issued@.len() - k,
        {
            if self.issued[k] == id {
                assert(self.issued@[k as int] == id);
                return true;
            }
            k = k + 1;
        }
        false
    }

    /// A UUID never issued before, so carried by no channel, open or
    /// replaced: a random one, or, should that one have been issued, the
    /// least number from 0 on that was not.
    pub fn fresh_channel_id(&self) -> (r: ChannelId)
        requires
            self.wf(),
        ensures
            !self.issued().contains(r),
            fresh_in(self@, r),
    {
        proof { self.lemma_open_ids_issued(); }
        let drawn = new_channel_id();
        if !self.was_issued(drawn) {
            return drawn;
        }
        let n = self.issued.len();
        let ghost ids = self.issued@.map_values(|c: ChannelId| c.0 as int);
        let mut j: u128 = 0;
        while j <= n as u128
            invariant
                self.wf(),
                n == self.issued@.len(),
                ids == self.issued@.map_values(|c: ChannelId| c.0 as int),
                j <= n + 1,
                forall|k: int| 0 <= k < j ==> #[trigger] ids.contains(k),
                forall|name: Seq<char>| #[trigger] self@.contains_key(name) ==> self.issued().contains(self@[name].id),
            decreases n + 1 - j,
        {
            if !self.was_issued(ChannelId(j)) {
                return ChannelId(j);
            }
            proof {
                let i = choose|i: int| 0 <= i < self.issued@.len() && self.issued@[i] == ChannelId(j);
                assert(ids[i] == j as int);
                assert(ids.contains(j as int));
            }
            j = j + 1;
        }
        proof {
            broadcast use seq_to_set_is_finite;
            let range = set_int_range(0, n + 1);
            lemma_int_range(0, n + 1);
            assert forall|k: int| #[trigger] range.contains(k) implies ids.to_set().contains(k) by {
                assert(ids.contains(k));
            }
            ids.lemma_cardinality_of_set();
            lemma_len_subset(range, ids.to_set());
        }
        drawn
    }

    /// Opens a channel under `name` bound to `window`, with a UUID never
    /// issued before; see `open_channel_with_id`.
    pub fn open_channel(&mut self, name: &str, window: WindowId, response_id: CallbackFn) -> (r: Vec<Delivery>)
        requires
            old(self).wf(),
        ensures
            final(self).wf(),
            !old(self).issued().contains(final(self)@[name@].id),
            final(self).issued() == old(self).issued().push(final(self)@[name@].id),
            fresh_in(old(self)@, final(self)@[name@].id),
            final(self)@ == old(self)@.insert(name@, Channel { id: final(self)@[name@].id, window }),
            r@.map_values(|d: Delivery| d@)
                == open_deliveries(old(self)@, name@, window, response_id.0 as nat, final(self)@[name@].id),
    {
        let id = self.fresh_channel_id();
        let r = self.open_channel_with_id(name, window, response_id, id);
        assert(self@.contains_key(name@) && self@[name@].id == id);
        r
    }

    proof fn lemma_view_after_set(&self, before: Channels, i: int, name: Seq<char>, channel: Channel)
        requires
            before.names_unique(),
            self.names_unique(),
            0 <= i < before.channel_items.len(),
            before.channel_items[i].name@ == name,
            self.channel_items@ == before.channel_items@.update(i, self.channel_items[i]),
            self.channel_items[i].name@ == name,
            self.channel_items[i].channel == channel,
        ensures
            self@ == before@.insert(name, channel),
    {
        assert forall|k: Seq<char>| #[trigger] self@.contains_key(k) <==> before@.insert(name, channel).contains_key(k) by {
            if self.holds_name(k) {
                let j = self.index_of(k);
                if j != i {
                    before.lemma_entry(j);
                }
            }
            if before.holds_name(k) {
                let j = before.index_of(k);
                assert(before.channel_items[j].name@ == k);
                if j != i {
                    self.lemma_entry(j);
                } else {
                    self.lemma_entry(i);
                }
            }
            if k == name {
                self.lemma_entry(i);
            }
        }
        assert forall|k: Seq<char>| #[trigger] self@.contains_key(k) implies self@[k] == before@.insert(name, channel)[k] by {
            let j = self.index_of(k);
            assert(self.channel_items[j].name@ == k);
            self.lemma_entry(j);
            if j != i {
                before.lemma_entry(j);
            }
        }
        assert(self@ =~= before@.insert(name, channel));
    }

    proof fn lemma_view_after_push(&self, before: Channels, name: Seq<char>, channel: Channel)
        requires
            before.names_unique(),
            self.names_unique(),
            !before@.contains_key(name),
            self.channel_items.len() == before.channel_items.len() + 1,
            forall|j: int| 0 <= j < before.channel_items.len() ==> self.channel_items[j] == #[trigger] before.channel_items[j],
            self.channel_items@.last().name@ == name,
            self.channel_items@.last().channel == channel,
        ensures
            self@ == before@.insert(name, channel),
    {
        let n = before.channel_items.len() as int;
        assert forall|k: Seq<char>| #[trigger] self@.contains_key(k) <==> before@.insert(name, channel).contains_key(k) by {
            if self.holds_name(k) {
                let j = self.index_of(k);
                if j != n {
                    assert(self.channel_items[j] == before.channel_items[j]);
                    before.lemma_entry(j);
                }
            }
            if before.holds_name(k) {
                let j = before.index_of(k);
                assert(self.channel_items[j] == before.channel_items[j]);
                self.lemma_entry(j);
            }
            if k == name {
                self.lemma_entry(n);
            }
        }
        assert forall|k: Seq<char>| #[trigger] self@.contains_key(k) implies self@[k] == before@.insert(name, channel)[k] by {
            let j = self.index_of(k);
            assert(self.channel_items[j].name@ == k);
            self.lemma_entry(j);
            if j != n {
                assert(self.channel_items[j] == before.channel_items[j]);
                before.lemma_entry(j);
            }
        }
        assert(self@ =~= before@.insert(name, channel));
    }
}

/// Opening the same name twice in a row sends exactly one close, to the
/// window of the first channel, before the second acceptance; afterwards the
/// name holds one channel, the second, whose UUID differs from the first's,
/// and no channel carries the first UUID unless another name already did.
pub proof fn lemma_reopen_replaces(
    registry: Map<Seq<char>, Channel>,
    name: Seq<char>,
    first_window: WindowId,
    first_token: nat,
    first_id: ChannelId,
    second_window: WindowId,
    second_token: nat,
    second_id: ChannelId,
)
    requires
        first_id != second_id,
    ensures
        ({
            let after_first = registry.insert(name, Channel { id: first_id, window: first_window });
            let after_second = after_first.insert(name, Channel { id: second_id, window: second_window });
            &&& open_deliveries(after_first, name, second_window, second_token, second_id) == seq![
                (first_window, channel_script(close_json(first_id.0))),
                (second_window, channel_script(accept_json(second_id.0, second_token))),
            ]
            &&& after_second.dom() == registry.dom().insert(name)
            &&& after_second[name].id == second_id
            &&& after_second[name].id != first_id
            &&& (forall|n: Seq<char>| #[trigger] registry.contains_key(n) && n != name ==> registry[n].id != first_id)
                ==> (forall|n: Seq<char>| #[trigger] after_second.contains_key(n) ==> after_second[n].id != first_id)
        }),
{
    let after_first = registry.insert(name, Channel { id: first_id, window: first_window });
    let after_second = after_first.insert(name, Channel { id: second_id, window: second_window });
    assert(open_deliveries(after_first, name, second_window, second_token, second_id) =~= seq![
        (first_window, channel_script(close_json(first_id.0))),
        (second_window, channel_script(accept_json(second_id.0, second_token))),
    ]);
    assert(after_second.dom() =~= registry.dom().insert(name));
}

} // verus!
