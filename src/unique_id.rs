use vstd::prelude::*;
use ahash::AHashMap;

verus! {

#[verifier::external_type_specification]
#[verifier::external_body]
#[verifier::reject_recursive_types(K)]
#[verifier::reject_recursive_types(V)]
#[verifier::reject_recursive_types(S)]
pub struct ExAHashMap<K, V, S>(AHashMap<K, V, S>);

#[verifier::external_type_specification]
#[verifier::external_body]
pub struct ExRandomState(ahash::RandomState);

/// The index of an intern table: each text to the slot that holds it.
pub type SlotIndex = AHashMap<String, usize>;

/// What an index map holds: the text of each key, mapped to its slot.
pub uninterp spec fn slot_map(m: SlotIndex) -> Map<Seq<char>, usize>;

/// Relies on `AHashMap::new`: a new map holds no key.
#[verifier::external_body]
fn new_slot_map() -> (r: SlotIndex)
    ensures
        slot_map(r).dom() == Set::<Seq<char>>::empty(),
{
    AHashMap::new()
}

/// Relies on `AHashMap::get`: looks a key up by its text (a `String` key hashes and
/// compares as the `str` it holds).
#[verifier::external_body]
fn find_slot(m: &SlotIndex, key: &str) -> (r: Option<usize>)
    ensures
        r == (if slot_map(*m).contains_key(key@) {
            Some(slot_map(*m)[key@])
        } else {
            None::<usize>
        }),
{
    m.get(key).copied()
}

/// Relies on `AHashMap::insert`: the key maps to the slot afterwards, every other key
/// keeps its slot.
#[verifier::external_body]
fn put_slot(m: &mut SlotIndex, key: String, slot: usize)
    ensures
        slot_map(*final(m)) == slot_map(*old(m)).insert(key@, slot),
{
    m.insert(key, slot);
}

/// The texts after interning `s` into a table that holds `texts`: a new text goes last.
pub open spec fn interned(texts: Seq<Seq<char>>, s: Seq<char>) -> Seq<Seq<char>> {
    if texts.contains(s) {
        texts
    } else {
        texts.push(s)
    }
}

/// The table of canonical texts. Slot 0 always holds the empty text, so that the
/// default handle exists before anything is interned; whether the empty text has been
/// interned is recorded apart, so that it is counted only once it has.
pub struct InternTable {
    slots: SlotIndex,
    texts: Vec<String>,
    empty_interned: bool,
}

/// A canonical handle: the slot of a text in an `InternTable`. Two handles from one
/// table are equal exactly when their texts are.
#[derive(Clone, Copy, PartialEq, Eq, Structural, Debug, Hash)]
pub struct UniqueId {
    index: usize,
}

impl InternTable {
    /// The texts held, by slot.
    pub closed spec fn texts(&self) -> Seq<Seq<char>> {
        self.texts@.map_values(|t: String| t@)
    }

    /// Whether the empty text has been interned.
    pub closed spec fn interned_empty(&self) -> bool {
        self.empty_interned
    }

    /// The number of distinct texts interned so far.
    pub open spec fn count_spec(&self) -> nat {
        counted(self.texts(), self.interned_empty())
    }

    /// The index maps each text to its slot and holds nothing else.
    pub closed spec fn index_agrees(&self) -> bool {
        &&& forall|i: int|
            0 <= i < self.texts().len() ==> #[trigger] slot_map(self.slots).contains_key(
                self.texts()[i],
            ) && slot_map(self.slots)[self.texts()[i]] == i
        &&& forall|k: Seq<char>| #[trigger]
            slot_map(self.slots).contains_key(k) ==> slot_map(self.slots)[k] < self.texts().len()
                && self.texts()[slot_map(self.slots)[k] as int] == k
    }

    /// Slot 0 holds the empty text, no text is held twice, and the index agrees.
    pub open spec fn wf(&self) -> bool {
        &&& self.texts().len() >= 1
        &&& self.texts()[0] == Seq::<char>::empty()
        &&& self.texts().no_duplicates()
        &&& self.index_agrees()
    }

    /// A table that holds only the empty text in slot 0, which counts as not interned yet.
    pub fn new() -> (r: InternTable)
        ensures
            r.wf(),
            r.texts() == seq![Seq::<char>::empty()],
            !r.interned_empty(),
            r.count_spec() == 0,
    {
        let mut slots = new_slot_map();
        let empty = String::new();
        put_slot(&mut slots, String::new(), 0);
        let mut texts: Vec<String> = Vec::new();
        texts.push(empty);
        let r = InternTable { slots, texts, empty_interned: false };
        assert(r.texts() =~= seq![Seq::<char>::empty()]);
        r
    }

    /// The handle of the empty text, which slot 0 holds from the start; handing it
    /// out counts as interning the empty text, exactly as `from_str` of it does.
    pub fn default_handle(&mut self) -> (r: UniqueId)
        requires
            old(self).wf(),
        ensures
            UniqueId::interned_as(*old(self), *final(self), Seq::<char>::empty(), r),
            r == UniqueId::empty_handle(),
    {
        let empty = String::new();
        let r = UniqueId::from_str(self, empty.as_str());
        assert(UniqueId::empty_handle().text_in(*self) == Seq::<char>::empty());
        r
    }

    /// The slot that holds `s`, adding it as a new slot when it is not held yet.
    fn intern(&mut self, s: &str) -> (r: usize)
        requires
            old(self).wf(),
        ensures
            final(self).wf(),
            final(self).texts() == interned(old(self).texts(), s@),
            final(self).interned_empty() == (old(self).interned_empty() || s@.len() == 0),
            r < final(self).texts().len(),
            final(self).texts()[r as int] == s@,
    {
        if s.is_empty() {
            self.empty_interned = true;
        }
        match find_slot(&self.slots, s) {
            Some(i) => {
                assert(self.texts().contains(s@));
                i
            },
            None => {
                proof {
                    if self.texts().contains(s@) {
                        let j = self.texts().index_of(s@);
                        assert(slot_map(self.slots).contains_key(self.texts()[j]));
                    }
                }
                let i = self.texts.len();
                let old_texts = Ghost(self.texts());
                let ghost old_map = slot_map(self.slots);
                self.texts.push(String::from_str(s));
                put_slot(&mut self.slots, String::from_str(s), i);
                assert(self.texts() =~= old_texts@.push(s@));
                assert forall|a: int, b: int|
                    0 <= a < self.texts().len() && 0 <= b < self.texts().len() && a != b
                        implies self.texts()[a] != self.texts()[b] by {
                    if a < i && b < i {
                        assert(old_texts@.no_duplicates());
                    } else if a < i {
                        assert(old_texts@[a] == self.texts()[a]);
                        assert(old_texts@.contains(self.texts()[a]));
                    } else if b < i {
                        assert(old_texts@[b] == self.texts()[b]);
                        assert(old_texts@.contains(self.texts()[b]));
                    }
                }
                assert forall|a: int| 0 <= a < self.texts().len() implies #[trigger] slot_map(
                    self.slots,
                ).contains_key(self.texts()[a]) && slot_map(self.slots)[self.texts()[a]] == a by {
                    if a < i {
                        assert(old_texts@[a] == self.texts()[a]);
                        assert(old_map.contains_key(old_texts@[a]));
                        assert(self.texts()[a] != s@);
                    }
                }
                i
            },
        }
    }
}


/// The text of the parts, one after another.
pub open spec fn joined(parts: Seq<Seq<char>>) -> Seq<char>
    decreases parts.len(),
{
    if parts.len() == 0 {
        Seq::empty()
    } else {
        joined(parts.drop_last()) + parts.last()
    }
}

/// The texts of a slice of strings.
pub open spec fn texts_of(parts: Seq<String>) -> Seq<Seq<char>> {
    parts.map_values(|p: String| p@)
}

impl UniqueId {
    /// The slot this handle names.
    pub closed spec fn slot(self) -> nat {
        self.index as nat
    }

    /// The handle of slot 0, which holds the empty text.
    pub closed spec fn empty_handle() -> UniqueId {
        UniqueId { index: 0 }
    }

    /// The handle names a slot of the table.
    pub open spec fn valid_in(self, table: InternTable) -> bool {
        self.slot() < table.texts().len()
    }

    /// The text of the handle's slot.
    pub open spec fn text_in(self, table: InternTable) -> Seq<char> {
        table.texts()[self.slot() as int]
    }

    /// What interning `text` into `before` leaves as `after` and hands back as `r`.
    pub open spec fn interned_as(
        before: InternTable,
        after: InternTable,
        text: Seq<char>,
        r: UniqueId,
    ) -> bool {
        &&& after.wf()
        &&& after.texts() == interned(before.texts(), text)
        &&& after.interned_empty() == (before.interned_empty() || text.len() == 0)
        &&& r.valid_in(after)
        &&& r.text_in(after) == text
        &&& forall|h: UniqueId| #[trigger] h.text_in(after) == text && h.valid_in(after) ==> h == r
        &&& forall|h: UniqueId| #[trigger]
            h.valid_in(before) ==> h.valid_in(after) && h.text_in(after) == h.text_in(before)
    }

    /// The canonical handle of `id`: the handle already issued for this text, or one
    /// for a new slot that now holds it.
    pub fn from_str(table: &mut InternTable, id: &str) -> (r: UniqueId)
        requires
            old(table).wf(),
        ensures
            UniqueId::interned_as(*old(table), *final(table), id@, r),
    {
        let index = table.intern(id);
        let r = UniqueId { index };
        assert forall|h: UniqueId| #[trigger] h.text_in(*table) == id@ && h.valid_in(*table) implies h
            == r by {
            assert(table.texts().no_duplicates());
        }
        r
    }

    /// The text of the handle, borrowed from the table that holds it.
    pub fn as_str<'a>(&self, table: &'a InternTable) -> (r: &'a str)
        requires
            table.wf(),
            self.valid_in(*table),
        ensures
            r@ == self.text_in(*table),
    {
        table.texts[self.index].as_str()
    }

    /// The number of distinct texts interned into the table.
    pub fn count(table: &InternTable) -> (r: usize)
        requires
            table.wf(),
        ensures
            r == table.count_spec(),
    {
        let n = table.texts.len();
        if table.empty_interned {
            n
        } else {
            n - 1
        }
    }

    /// The handle of this handle's text followed by `other`'s.
    pub fn combine(self, table: &mut InternTable, other: UniqueId) -> (r: UniqueId)
        requires
            old(table).wf(),
            self.valid_in(*old(table)),
            other.valid_in(*old(table)),
        ensures
            UniqueId::interned_as(
                *old(table),
                *final(table),
                self.text_in(*old(table)) + other.text_in(*old(table)),
                r,
            ),
    {
        let mut text = String::from_str(self.as_str(table));
        text.append(other.as_str(table));
        UniqueId::from_str(table, text.as_str())
    }

    /// The handle of this handle's text followed by `other`.
    pub fn combine_str(self, table: &mut InternTable, other: &str) -> (r: UniqueId)
        requires
            old(table).wf(),
            self.valid_in(*old(table)),
        ensures
            UniqueId::interned_as(*old(table), *final(table), self.text_in(*old(table)) + other@, r),
    {
        let mut text = String::from_str(self.as_str(table));
        text.append(other);
        UniqueId::from_str(table, text.as_str())
    }

    /// The handle of this handle's text followed by each of `others`, in order.
    pub fn add(&self, table: &mut InternTable, others: &[String]) -> (r: UniqueId)
        requires
            old(table).wf(),
            self.valid_in(*old(table)),
        ensures
            UniqueId::interned_as(
                *old(table),
                *final(table),
                self.text_in(*old(table)) + joined(texts_of(others@)),
                r,
            ),
    {
        let mut text = String::from_str(self.as_str(table));
        let ghost start = text@;
        let mut i: usize = 0;
        while i < others.len()
            invariant
                i <= others@.len(),
                text@ == start + joined(texts_of(others@).take(i as int)),
            decreases others@.len() - i,
        {
            text.append(others[i].as_str());
            assert(texts_of(others@).take(i + 1).drop_last() =~= texts_of(others@).take(i as int));
            i = i + 1;
        }
        assert(texts_of(others@).take(i as int) =~= texts_of(others@));
        UniqueId::from_str(table, text.as_str())
    }

    /// The handle of the elements' texts, one after another.
    pub fn merged(table: &mut InternTable, elements: &[String]) -> (r: UniqueId)
        requires
            old(table).wf(),
        ensures
            UniqueId::interned_as(*old(table), *final(table), joined(texts_of(elements@)), r),
    {
        let mut text = String::new();
        let mut i: usize = 0;
        while i < elements.len()
            invariant
                i <= elements@.len(),
                text@ == joined(texts_of(elements@).take(i as int)),
            decreases elements@.len() - i,
        {
            text.append(elements[i].as_str());
            assert(texts_of(elements@).take(i + 1).drop_last() =~= texts_of(elements@).take(
                i as int,
            ));
            i = i + 1;
        }
        assert(texts_of(elements@).take(i as int) =~= texts_of(elements@));
        UniqueId::from_str(table, text.as_str())
    }
}

/// The control character that a backslash followed by `c` stands for, if any.
pub open spec fn control_for(c: char) -> Option<char> {
    if c == 'n' {
        Some('\n')
    } else if c == 't' {
        Some('\t')
    } else if c == 'r' {
        Some('\r')
    } else {
        None
    }
}

/// The text shown for `s`: each two-character escape `\n`, `\t` and `\r` becomes the
/// control character it names, every other character stays.
pub open spec fn unescaped(s: Seq<char>) -> Seq<char>
    decreases s.len(),
{
    if s.len() == 0 {
        s
    } else if s.len() >= 2 && s[0] == '\\' && control_for(s[1]) is Some {
        seq![control_for(s[1])->Some_0] + unescaped(s.skip(2))
    } else {
        seq![s[0]] + unescaped(s.skip(1))
    }
}

impl UniqueId {
    /// The handle's text as shown: its escapes turned into control characters. The
    /// stored text is left as it is.
    pub fn display(&self, table: &InternTable) -> (r: String)
        requires
            table.wf(),
            self.valid_in(*table),
        ensures
            r@ == unescaped(self.text_in(*table)),
    {
        let text = self.as_str(table);
        let n = text.unicode_len();
        let mut out = String::new();
        let mut i: usize = 0;
        assert(text@.subrange(0, n as int) =~= text@);
        assert(out@ + unescaped(text@) =~= unescaped(text@));
        while i < n
            invariant
                n == text@.len(),
                i <= n,
                out@ + unescaped(text@.subrange(i as int, n as int)) == unescaped(text@),
            decreases n - i,
        {
            let ghost rest = text@.subrange(i as int, n as int);
            let c = text.get_char(i);
            let mut shown = false;
            if c == '\\' && i + 1 < n {
                let d = text.get_char(i + 1);
                assert(rest.skip(2) =~= text@.subrange(i + 2, n as int));
                if d == 'n' {
                    proof { reveal_strlit("\n"); }
                    out.append("\n");
                    shown = true;
                } else if d == 't' {
                    proof { reveal_strlit("\t"); }
                    out.append("\t");
                    shown = true;
                } else if d == 'r' {
                    proof { reveal_strlit("\r"); }
                    out.append("\r");
                    shown = true;
                }
            }
            if shown {
                assert(out@ + unescaped(text@.subrange(i + 2, n as int)) =~= unescaped(text@)) by {
                    assert(unescaped(rest) == seq![control_for(rest[1])->Some_0] + unescaped(rest.skip(2)));
                }
                i = i + 2;
            } else {
                out.append(text.substring_char(i, i + 1));
                assert(rest.skip(1) =~= text@.subrange(i + 1, n as int));
                assert(out@ + unescaped(text@.subrange(i + 1, n as int)) =~= unescaped(text@));
                i = i + 1;
            }
        }
        assert(text@.subrange(n as int, n as int) =~= Seq::<char>::empty());
        assert(out@ =~= unescaped(text@));
        out
    }
}

#[verifier::external_type_specification]
#[verifier::external_body]
pub struct ExJsonValue(serde_json::Value);

#[verifier::external_type_specification]
#[verifier::external_body]
pub struct ExJsonError(serde_json::Error);

/// Whether a text reads as one JSON document.
pub uninterp spec fn is_json_document(s: Seq<char>) -> bool;

/// Relies on `serde_json::from_str::<serde_json::Value>`: it succeeds on a text exactly
/// when that text is one JSON document, which depends on the text alone.
#[verifier::external_body]
fn parse_json(s: &str) -> (r: Result<serde_json::Value, serde_json::Error>)
    ensures
        r is Ok <==> is_json_document(s@),
{
    serde_json::from_str::<serde_json::Value>(s)
}

/// What a handle is written as, and read back from, in a structured payload.
pub enum Payload {
    /// A text written as a plain string.
    Text(String),
    /// A JSON document, written as the value it encodes. Read back, it holds the
    /// compact JSON text of the value that came in.
    Structured(String),
}

/// The text that a payload carries, whichever its kind.
pub open spec fn payload_text(p: Payload) -> Seq<char> {
    match p {
        Payload::Text(s) => s@,
        Payload::Structured(s) => s@,
    }
}

/// How a handle with this text is written: as the value it encodes when the text is a
/// JSON document, else as the plain text itself.
pub open spec fn serialized_as(text: Seq<char>, p: Payload) -> bool {
    &&& payload_text(p) == text
    &&& (p is Structured <==> is_json_document(text))
}

impl UniqueId {
    /// The payload this handle is written as.
    pub fn serialize(&self, table: &InternTable) -> (r: Payload)
        requires
            table.wf(),
            self.valid_in(*table),
        ensures
            serialized_as(self.text_in(*table), r),
    {
        let text = self.as_str(table);
        match parse_json(text) {
            Ok(_) => Payload::Structured(String::from_str(text)),
            Err(_) => Payload::Text(String::from_str(text)),
        }
    }

    /// The handle a payload reads back as: the handle of the text it carries.
    pub fn deserialize(table: &mut InternTable, payload: Payload) -> (r: UniqueId)
        requires
            old(table).wf(),
        ensures
            UniqueId::interned_as(*old(table), *final(table), payload_text(payload), r),
    {
        match payload {
            Payload::Text(s) => UniqueId::from_str(table, s.as_str()),
            Payload::Structured(s) => UniqueId::from_str(table, s.as_str()),
        }
    }
}

/// The texts after interning each of `inputs` in order into a table that holds `texts`.
pub open spec fn interned_each(texts: Seq<Seq<char>>, inputs: Seq<Seq<char>>) -> Seq<Seq<char>>
    decreases inputs.len(),
{
    if inputs.len() == 0 {
        texts
    } else {
        interned(interned_each(texts, inputs.drop_last()), inputs.last())
    }
}

/// The number of distinct texts that a table holding `texts` counts.
pub open spec fn counted(texts: Seq<Seq<char>>, empty_interned: bool) -> nat {
    if empty_interned {
        texts.len()
    } else {
        (texts.len() - 1) as nat
    }
}

/// Interning keeps the texts distinct, only appends, and holds the texts it was given.
proof fn lemma_interned_each_grows(texts: Seq<Seq<char>>, inputs: Seq<Seq<char>>)
    requires
        texts.no_duplicates(),
    ensures
        interned_each(texts, inputs).no_duplicates(),
        texts.is_prefix_of(interned_each(texts, inputs)),
        interned_each(texts, inputs).to_set() == texts.to_set() + inputs.to_set(),
    decreases inputs.len(),
{
    if inputs.len() > 0 {
        let prev = interned_each(texts, inputs.drop_last());
        lemma_interned_each_grows(texts, inputs.drop_last());
        let next = interned_each(texts, inputs);
        assert(inputs.drop_last().push(inputs.last()) =~= inputs);
        assert(inputs.to_set() =~= inputs.drop_last().to_set().insert(inputs.last())) by {
            assert forall|x: Seq<char>| inputs.to_set().contains(x) implies inputs.drop_last().to_set().insert(
                inputs.last(),
            ).contains(x) by {
                let k = choose|k: int| 0 <= k < inputs.len() && inputs[k] == x;
                if k < inputs.len() - 1 {
                    assert(inputs.drop_last()[k] == x);
                }
            }
            assert forall|x: Seq<char>| inputs.drop_last().to_set().insert(inputs.last()).contains(
                x,
            ) implies inputs.to_set().contains(x) by {
                if x != inputs.last() {
                    let k = choose|k: int| 0 <= k < inputs.drop_last().len() && inputs.drop_last()[k] == x;
                    assert(inputs[k] == x);
                } else {
                    assert(inputs[inputs.len() - 1] == x);
                }
            }
        }
        if !prev.contains(inputs.last()) {
            assert(next =~= prev.push(inputs.last()));
            assert(next.to_set() =~= prev.to_set().insert(inputs.last())) by {
                assert forall|x: Seq<char>| next.to_set().contains(x) implies prev.to_set().insert(
                    inputs.last(),
                ).contains(x) by {
                    let k = choose|k: int| 0 <= k < next.len() && next[k] == x;
                    if k < prev.len() {
                        assert(prev[k] == x);
                    }
                }
                assert forall|x: Seq<char>| prev.to_set().insert(inputs.last()).contains(
                    x,
                ) implies next.to_set().contains(x) by {
                    if x != inputs.last() {
                        let k = choose|k: int| 0 <= k < prev.len() && prev[k] == x;
                        assert(next[k] == x);
                    } else {
                        assert(next[prev.len() as int] == x);
                    }
                }
            }
            assert(texts.is_prefix_of(next)) by {
                assert forall|k: int| 0 <= k < texts.len() implies next[k] == texts[k] by {
                    assert(prev[k] == texts[k]);
                }
            }
        } else {
            assert(prev.to_set().contains(inputs.last()));
            assert(next.to_set() =~= prev.to_set().insert(inputs.last()));
        }
        assert(next.to_set() =~= texts.to_set() + inputs.to_set());
    }
}

impl UniqueId {
    /// Handles of two texts interned one after the other into one table are equal
    /// exactly when the texts are.
    pub proof fn lemma_identity_is_content(
        t0: InternTable,
        t1: InternTable,
        t2: InternTable,
        a: Seq<char>,
        b: Seq<char>,
        ha: UniqueId,
        hb: UniqueId,
    )
        requires
            t0.wf(),
            UniqueId::interned_as(t0, t1, a, ha),
            UniqueId::interned_as(t1, t2, b, hb),
        ensures
            (ha == hb) <==> (a == b),
    {
        assert(t1.texts().is_prefix_of(t2.texts()));
        assert(ha.text_in(t2) == a);
    }

    /// Interning one text twice hands back equal handles, and the second time adds
    /// nothing to the table.
    pub proof fn lemma_stable(
        t0: InternTable,
        t1: InternTable,
        t2: InternTable,
        a: Seq<char>,
        h1: UniqueId,
        h2: UniqueId,
    )
        requires
            t0.wf(),
            UniqueId::interned_as(t0, t1, a, h1),
            UniqueId::interned_as(t1, t2, a, h2),
        ensures
            h1 == h2,
            t2.texts() == t1.texts(),
            t2.count_spec() == t1.count_spec(),
    {
        UniqueId::lemma_identity_is_content(t0, t1, t2, a, a, h1, h2);
    }

    /// Two handles valid in one table are equal exactly when their texts are.
    pub proof fn lemma_handles_equal_iff_texts(t: InternTable, h1: UniqueId, h2: UniqueId)
        requires
            t.wf(),
            h1.valid_in(t),
            h2.valid_in(t),
        ensures
            (h1 == h2) <==> (h1.text_in(t) == h2.text_in(t)),
    {
    }

    /// However the callers of one table are interleaved, the table's lock makes their
    /// calls one sequence of interns, each step taking `tables[k]` to `tables[k + 1]`.
    /// After it, every handle handed out names the text it was asked for, two calls
    /// with one text got equal handles, and from a new table the count is the number of
    /// distinct texts interned.
    pub proof fn lemma_interleaved_interns(
        tables: Seq<InternTable>,
        inputs: Seq<Seq<char>>,
        handles: Seq<UniqueId>,
    )
        requires
            tables.len() == inputs.len() + 1,
            handles.len() == inputs.len(),
            tables[0].wf(),
            forall|k: int|
                0 <= k < inputs.len() ==> #[trigger] UniqueId::interned_as(
                    tables[k],
                    tables[k + 1],
                    inputs[k],
                    handles[k],
                ),
        ensures
            tables.last().wf(),
            tables.last().texts() == interned_each(tables[0].texts(), inputs),
            tables.last().interned_empty() == (tables[0].interned_empty() || inputs.contains(
                Seq::<char>::empty(),
            )),
            forall|k: int|
                #![trigger handles[k]]
                0 <= k < inputs.len() ==> handles[k].valid_in(tables.last()) && handles[k].text_in(
                    tables.last(),
                ) == inputs[k],
            forall|k1: int, k2: int|
                0 <= k1 < inputs.len() && 0 <= k2 < inputs.len() && inputs[k1] == inputs[k2]
                    ==> handles[k1] == handles[k2],
            tables[0].count_spec() == 0 ==> tables.last().count_spec() == inputs.to_set().len(),
        decreases inputs.len(),
    {
        let n = inputs.len();
        if n == 0 {
            assert(!inputs.contains(Seq::<char>::empty()));
            if tables[0].count_spec() == 0 {
                assert(inputs.to_set() =~= Set::<Seq<char>>::empty());
            }
        } else {
            let tp = tables.drop_last();
            let ip = inputs.drop_last();
            let hp = handles.drop_last();
            assert forall|k: int| 0 <= k < ip.len() implies #[trigger] UniqueId::interned_as(
                tp[k],
                tp[k + 1],
                ip[k],
                hp[k],
            ) by {
                assert(UniqueId::interned_as(tables[k], tables[k + 1], inputs[k], handles[k]));
            }
            UniqueId::lemma_interleaved_interns(tp, ip, hp);
            let prev = tables[n - 1];
            let last = tables[n as int];
            assert(tp.last() == prev);
            assert(tables.last() == last);
            assert(UniqueId::interned_as(tables[n - 1], tables[n as int], inputs[n - 1], handles[n - 1]));
            assert(inputs[n - 1].len() == 0 ==> inputs[n - 1] =~= Seq::<char>::empty());
            assert(ip.contains(Seq::<char>::empty()) || inputs.last() == Seq::<char>::empty()
                <==> inputs.contains(Seq::<char>::empty())) by {
                if inputs.contains(Seq::<char>::empty()) {
                    let j = choose|j: int| 0 <= j < n && inputs[j] == Seq::<char>::empty();
                    if j < n - 1 {
                        assert(ip[j] == inputs[j]);
                    }
                }
                if ip.contains(Seq::<char>::empty()) {
                    let j = choose|j: int| 0 <= j < ip.len() && ip[j] == Seq::<char>::empty();
                    assert(inputs[j] == ip[j]);
                }
            }
            assert forall|k: int|
                #![trigger handles[k]]
                0 <= k < n implies handles[k].valid_in(tables.last()) && handles[k].text_in(
                    tables.last(),
                ) == inputs[k] by {
                if k < n - 1 {
                    assert(hp[k] == handles[k]);
                    assert(ip[k] == inputs[k]);
                    assert(hp[k].valid_in(tp.last()) && hp[k].text_in(tp.last()) == ip[k]);
                    assert(handles[k].valid_in(prev));
                }
            }
            assert forall|k1: int, k2: int|
                0 <= k1 < n && 0 <= k2 < n && inputs[k1] == inputs[k2] implies handles[k1]
                == handles[k2] by {
                assert(handles[k1].text_in(last) == inputs[k1]);
                assert(handles[k2].text_in(last) == inputs[k2]);
                UniqueId::lemma_handles_equal_iff_texts(last, handles[k1], handles[k2]);
            }
            if tables[0].count_spec() == 0 {
                assert(tables[0].texts() =~= seq![Seq::<char>::empty()]);
                assert(!tables[0].interned_empty());
                lemma_fresh_interns(inputs);
            }
        }
    }

    /// A backslash followed by `n`, `t` or `r` anywhere in a handle's text is shown as
    /// the control character it names, and what stands before and after it is shown
    /// as on its own.
    pub proof fn lemma_escape_shown(a: Seq<char>, c: char, b: Seq<char>)
        requires
            control_for(c) is Some,
        ensures
            unescaped(a + seq!['\\', c] + b) == unescaped(a) + seq![control_for(c)->Some_0]
                + unescaped(b),
    {
        let y = seq!['\\', c] + b;
        assert(a + seq!['\\', c] + b =~= a + y);
        lemma_unescaped_concat(a, y);
        assert(y.skip(2) =~= b);
    }

    /// A handle hashes its slot alone, so equal handles hash the same data.
    pub proof fn lemma_equal_handles_hash_alike(h1: UniqueId, h2: UniqueId)
        requires
            h1 == h2,
        ensures
            h1.slot() == h2.slot(),
    {
    }

    /// A text that is not a JSON document is written as itself and read back as a
    /// handle of the same text.
    pub proof fn lemma_plain_text_round_trip(
        text: Seq<char>,
        p: Payload,
        before: InternTable,
        after: InternTable,
        r: UniqueId,
    )
        requires
            !is_json_document(text),
            serialized_as(text, p),
            UniqueId::interned_as(before, after, payload_text(p), r),
        ensures
            p is Text,
            r.text_in(after) == text,
    {
    }

    /// Interning the empty text hands back the default handle, the handle of slot 0.
    pub proof fn lemma_empty_text_is_default(t0: InternTable, t1: InternTable, h: UniqueId)
        requires
            t0.wf(),
            UniqueId::interned_as(t0, t1, Seq::<char>::empty(), h),
        ensures
            h == UniqueId::empty_handle(),
    {
        assert(t1.texts()[0] == t1.texts()[h.slot() as int]);
    }
}

/// After interning a sequence of texts into a new table, every text sits in one slot
/// only, every slot keeps the text it was given first, and the count is the number of
/// distinct texts interned.
proof fn lemma_fresh_interns(inputs: Seq<Seq<char>>)
    ensures
        interned_each(seq![Seq::<char>::empty()], inputs).no_duplicates(),
        forall|k: int|
            0 <= k <= inputs.len() ==> #[trigger] interned_each(
                seq![Seq::<char>::empty()],
                inputs.take(k),
            ).is_prefix_of(interned_each(seq![Seq::<char>::empty()], inputs)),
        counted(
            interned_each(seq![Seq::<char>::empty()], inputs),
            inputs.contains(Seq::<char>::empty()),
        ) == inputs.to_set().len(),
{
    let start = seq![Seq::<char>::empty()];
    lemma_interned_each_grows(start, inputs);
    assert forall|k: int| 0 <= k <= inputs.len() implies #[trigger] interned_each(
        start,
        inputs.take(k),
    ).is_prefix_of(interned_each(start, inputs)) by {
        lemma_prefix_of_steps(start, inputs, k);
    }
    let after = interned_each(start, inputs);
    after.unique_seq_to_set();
    assert(start.to_set() =~= set![Seq::<char>::empty()]) by {
        assert(start[0] == Seq::<char>::empty());
        assert(start.to_set().contains(Seq::<char>::empty()));
    }
    assert(after.to_set() =~= inputs.to_set().insert(Seq::<char>::empty()));
    if inputs.contains(Seq::<char>::empty()) {
        assert(inputs.to_set().contains(Seq::<char>::empty()));
        assert(inputs.to_set().insert(Seq::<char>::empty()) =~= inputs.to_set());
    } else {
        assert(!inputs.to_set().contains(Seq::<char>::empty()));
    }
}

/// Showing two texts one after the other is showing each, unless the first ends in a
/// backslash that the second's first character completes to an escape.
proof fn lemma_unescaped_concat(x: Seq<char>, y: Seq<char>)
    requires
        !(x.len() > 0 && y.len() > 0 && x.last() == '\\' && control_for(y[0]) is Some),
    ensures
        unescaped(x + y) == unescaped(x) + unescaped(y),
    decreases x.len(),
{
    if x.len() == 0 {
        assert(x + y =~= y);
    } else if x.len() >= 2 && x[0] == '\\' && control_for(x[1]) is Some {
        assert((x + y).skip(2) =~= x.skip(2) + y);
        lemma_unescaped_concat(x.skip(2), y);
    } else if x.len() == 1 {
        assert((x + y).skip(1) =~= y);
        assert(x.skip(1) =~= Seq::<char>::empty());
        assert(unescaped(x.skip(1)) =~= Seq::<char>::empty());
        assert(unescaped(x) =~= seq![x[0]]);
    } else {
        assert((x + y).skip(1) =~= x.skip(1) + y);
        lemma_unescaped_concat(x.skip(1), y);
    }
}

/// The table after the first `k` interns is a prefix of the table after all of them.
proof fn lemma_prefix_of_steps(texts: Seq<Seq<char>>, inputs: Seq<Seq<char>>, k: int)
    requires
        0 <= k <= inputs.len(),
    ensures
        interned_each(texts, inputs.take(k)).is_prefix_of(interned_each(texts, inputs)),
    decreases inputs.len(),
{
    if k == inputs.len() {
        assert(inputs.take(k) =~= inputs);
    } else {
        assert(inputs.drop_last().take(k) =~= inputs.take(k));
        lemma_prefix_of_steps(texts, inputs.drop_last(), k);
    }
}

} // verus!
