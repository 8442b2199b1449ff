//! The record form of a session: three named fields, `index`, `context` and
//! `key`, written in that order and read back in any order.

use vstd::prelude::*;
use crate::builder::{BuilderView, SessionBuilder};
use crate::secret::{Context, MasterKey};
use crate::session::{Session, SessionView};

verus! {

/// The number of fields in a session's record, and so the fewest entries
/// that a record can have.
pub const RECORD_FIELDS: usize = 3;

/// The names of the three fields, in the order in which they are written.
pub const FIELD_NAMES: [&'static str; 3] = ["index", "context", "key"];

/// The name under which a session's record is written.
pub const RECORD_NAME: &'static str = "Session";

/// One of the three fields of a session's record.
#[derive(Clone, Copy, Debug, PartialEq, Eq, Structural)]
pub enum Field {
    Index,
    Context,
    Key,
}

impl Field {
    /// The field's name in a record.
    pub open spec fn name_text(self) -> Seq<char> {
        match self {
            Field::Index => "index"@,
            Field::Context => "context"@,
            Field::Key => "key"@,
        }
    }

    /// The field that `name` stands for, if it is one of the three names.
    pub open spec fn named(name: Seq<char>) -> Option<Field> {
        if name == "index"@ {
            Some(Field::Index)
        } else if name == "context"@ {
            Some(Field::Context)
        } else if name == "key"@ {
            Some(Field::Key)
        } else {
            None
        }
    }

    /// The field's name in a record.
    pub fn name(self) -> (name: &'static str)
        ensures
            name@ == self.name_text(),
    {
        match self {
            Field::Index => "index",
            Field::Context => "context",
            Field::Key => "key",
        }
    }

    /// The field that `name` stands for, if it is one of the three names.
    pub fn from_name(name: &str) -> (field: Option<Field>)
        ensures
            field == Field::named(name@),
    {
        if str::eq(name, "index") {
            Some(Field::Index)
        } else if str::eq(name, "context") {
            Some(Field::Context)
        } else if str::eq(name, "key") {
            Some(Field::Key)
        } else {
            None
        }
    }
}

/// The three names are distinct, so each field is found again by its name.
pub proof fn lemma_field_names(field: Field)
    ensures
        Field::named(field.name_text()) == Some(field),
{
    reveal_strlit("index");
    reveal_strlit("context");
    reveal_strlit("key");
    assert("index"@.len() == 5);
    assert("context"@.len() == 7);
    assert("key"@.len() == 3);
}

/// The value of one field.
pub enum FieldValue {
    Index(u64),
    Context(Context),
    Key(MasterKey),
}

/// The value of one field, as plain values.
pub enum ValueView {
    Index(u64),
    Context(Seq<u8>),
    Key(Seq<u8>),
}

impl ValueView {
    /// The field that the value belongs to.
    pub open spec fn field(self) -> Field {
        match self {
            ValueView::Index(_) => Field::Index,
            ValueView::Context(_) => Field::Context,
            ValueView::Key(_) => Field::Key,
        }
    }
}

impl View for FieldValue {
    type V = ValueView;

    open spec fn view(&self) -> ValueView {
        match self {
            FieldValue::Index(index) => ValueView::Index(*index),
            FieldValue::Context(context) => ValueView::Context(context@),
            FieldValue::Key(key) => ValueView::Key(key@),
        }
    }
}

impl FieldValue {
    /// The field that the value belongs to.
    pub fn field(&self) -> (field: Field)
        ensures
            field == self@.field(),
    {
        match self {
            FieldValue::Index(_) => Field::Index,
            FieldValue::Context(_) => Field::Context,
            FieldValue::Key(_) => Field::Key,
        }
    }

    /// A second value holding the same contents.
    pub fn duplicate(&self) -> (copy: FieldValue)
        ensures
            copy@ == self@,
    {
        match self {
            FieldValue::Index(index) => FieldValue::Index(*index),
            FieldValue::Context(context) => FieldValue::Context(*context),
            FieldValue::Key(key) => FieldValue::Key(key.duplicate()),
        }
    }
}

/// One entry of a record: a name and the value found under it.
pub struct RecordEntry {
    pub name: String,
    pub value: FieldValue,
}

/// One entry of a record, as plain values.
pub struct EntryView {
    pub name: Seq<char>,
    pub value: ValueView,
}

impl View for RecordEntry {
    type V = EntryView;

    open spec fn view(&self) -> EntryView {
        EntryView { name: self.name@, value: self.value@ }
    }
}

/// Why a record was not accepted.
#[derive(Debug, PartialEq, Eq)]
pub enum CodecError {
    /// An entry's name is none of `index`, `context`, `key`.
    UnknownField(String),
    /// The record ended after this many entries, fewer than three.
    WrongLength(usize),
    /// The record has three entries or more and none of them supplies this
    /// field. Where several are missing, the first in the order `index`,
    /// `context`, `key` is named.
    MissingField(Field),
    /// The value under this field's name is the value of another field.
    InvalidValue(Field),
}

/// Why a record was not accepted, as plain values.
pub enum CodecErrorView {
    UnknownField(Seq<char>),
    WrongLength(nat),
    MissingField(Field),
    InvalidValue(Field),
}

impl View for CodecError {
    type V = CodecErrorView;

    open spec fn view(&self) -> CodecErrorView {
        match self {
            CodecError::UnknownField(name) => CodecErrorView::UnknownField(name@),
            CodecError::WrongLength(found) => CodecErrorView::WrongLength(*found as nat),
            CodecError::MissingField(field) => CodecErrorView::MissingField(*field),
            CodecError::InvalidValue(field) => CodecErrorView::InvalidValue(*field),
        }
    }
}

/// What is wrong with a single entry, if anything: its name is unknown, or
/// its value belongs to another field than the one it is filed under.
pub open spec fn entry_fault(entry: EntryView) -> Option<CodecErrorView> {
    match Field::named(entry.name) {
        None => Some(CodecErrorView::UnknownField(entry.name)),
        Some(field) => if entry.value.field() == field {
            None
        } else {
            Some(CodecErrorView::InvalidValue(field))
        },
    }
}

/// The fault of the earliest faulty entry, if any entry is faulty.
pub open spec fn first_fault(entries: Seq<EntryView>) -> Option<CodecErrorView>
    decreases entries.len(),
{
    if entries.len() == 0 {
        None
    } else {
        match first_fault(entries.drop_last()) {
            Some(fault) => Some(fault),
            None => entry_fault(entries.last()),
        }
    }
}

/// The builder after `value` was stored in it: the value takes the place of
/// whatever its field held before.
pub open spec fn stored(fields: BuilderView, value: ValueView) -> BuilderView {
    match value {
        ValueView::Index(index) => BuilderView { index: Some(index), ..fields },
        ValueView::Context(context) => BuilderView { context: Some(context), ..fields },
        ValueView::Key(key) => BuilderView { key: Some(key), ..fields },
    }
}

/// The builder after the values of all `entries` were stored in it, in
/// order: of two entries for one field the later one wins.
pub open spec fn collected(entries: Seq<EntryView>) -> BuilderView
    decreases entries.len(),
{
    if entries.len() == 0 {
        BuilderView::empty()
    } else {
        stored(collected(entries.drop_last()), entries.last().value)
    }
}

/// The first field, in the order `index`, `context`, `key`, that is not set.
pub open spec fn first_missing(fields: BuilderView) -> Field
    recommends
        !fields.complete(),
{
    if fields.index is None {
        Field::Index
    } else if fields.context is None {
        Field::Context
    } else {
        Field::Key
    }
}

/// What strict finalization of the collected fields gives.
pub open spec fn finished(fields: BuilderView) -> Result<SessionView, CodecErrorView> {
    match fields.strict() {
        Ok(session) => Ok(session),
        Err(_) => Err(CodecErrorView::MissingField(first_missing(fields))),
    }
}

/// What reading a record gives.
///
/// Every entry is read. The earliest faulty one decides: an unknown name or
/// a misfiled value is reported as such. Without a fault, a record of fewer
/// than three entries has the wrong length; otherwise the values make the
/// session, unless a field is missing among them.
pub open spec fn decoded(entries: Seq<EntryView>) -> Result<SessionView, CodecErrorView> {
    match first_fault(entries) {
        Some(fault) => Err(fault),
        None => if entries.len() < RECORD_FIELDS {
            Err(CodecErrorView::WrongLength(entries.len()))
        } else {
            finished(collected(entries))
        },
    }
}

/// The record of a session: its three fields in the order `index`,
/// `context`, `key`.
pub open spec fn encoded(session: SessionView) -> Seq<EntryView> {
    seq![
        EntryView { name: Field::Index.name_text(), value: ValueView::Index(session.index) },
        EntryView { name: Field::Context.name_text(), value: ValueView::Context(session.context) },
        EntryView { name: Field::Key.name_text(), value: ValueView::Key(session.key) },
    ]
}

/// The views of a record's entries, in order.
pub open spec fn record_view(entries: Seq<RecordEntry>) -> Seq<EntryView> {
    entries.map_values(|entry: RecordEntry| entry@)
}

/// A result of decoding, as plain values.
pub open spec fn result_view(result: Result<Session, CodecError>) -> Result<
    SessionView,
    CodecErrorView,
> {
    match result {
        Ok(session) => Ok(session@),
        Err(error) => Err(error@),
    }
}

/// A number of entries as the decoder keeps it: counted up to three, since
/// all that matters of a larger number is that it is not below three.
pub open spec fn counted(entries: nat) -> nat {
    if entries < RECORD_FIELDS {
        entries
    } else {
        RECORD_FIELDS as nat
    }
}

/// How far a record has been read, as plain values.
pub struct DecoderView {
    /// The fields stored so far.
    pub fields: BuilderView,
    /// The number of entries stored so far, counted up to three.
    pub read: nat,
}

impl DecoderView {
    /// The state before anything was read.
    pub open spec fn start() -> DecoderView {
        DecoderView { fields: BuilderView::empty(), read: 0 }
    }

    /// The state after an entry was handed in as the value of `field`.
    pub open spec fn accepted(self, field: Field, value: ValueView) -> Result<
        DecoderView,
        CodecErrorView,
    > {
        if value.field() != field {
            Err(CodecErrorView::InvalidValue(field))
        } else {
            Ok(DecoderView { fields: stored(self.fields, value), read: counted(self.read + 1) })
        }
    }

    /// What the record gives if it ends in this state.
    pub open spec fn finish(self) -> Result<SessionView, CodecErrorView> {
        if self.read < RECORD_FIELDS {
            Err(CodecErrorView::WrongLength(self.read))
        } else {
            finished(self.fields)
        }
    }
}

/// Reads a session's record entry by entry.
///
/// The caller owns the record's source. As long as the source has another
/// entry, the caller takes the entry's name from it, asks
/// [`SessionDecoder::field_named`] which field that is, takes the value of
/// that field from the source and hands it to [`SessionDecoder::accept`].
/// When the source is exhausted, [`SessionDecoder::finish`] gives the
/// session. The first error ends the reading.
pub struct SessionDecoder {
    builder: SessionBuilder,
    read: usize,
}

impl View for SessionDecoder {
    type V = DecoderView;

    closed spec fn view(&self) -> DecoderView {
        DecoderView { fields: self.builder@, read: counted(self.read as nat) }
    }
}

impl SessionDecoder {
    /// A decoder that has read nothing yet.
    pub fn new() -> (decoder: SessionDecoder)
        ensures
            decoder@ == DecoderView::start(),
    {
        SessionDecoder { builder: SessionBuilder::new(), read: 0 }
    }

    /// The field that an entry's name stands for. Any name but `index`,
    /// `context` and `key` is an error, which carries the name.
    pub fn field_named(name: &str) -> (field: Result<Field, CodecError>)
        ensures
            match Field::named(name@) {
                Some(known) => field == Ok::<Field, CodecError>(known),
                None => field matches Err(error) && error@ == CodecErrorView::UnknownField(name@),
            },
    {
        match Field::from_name(name) {
            Some(known) => Ok(known),
            None => Err(CodecError::UnknownField(name.to_owned())),
        }
    }

    /// Stores `value` as the value of `field`, in place of an earlier value
    /// of that field. A value that belongs to another field is an error and
    /// stores nothing.
    pub fn accept(&mut self, field: Field, value: FieldValue) -> (stored: Result<(), CodecError>)
        ensures
            match old(self)@.accepted(field, value@) {
                Ok(next) => stored is Ok && final(self)@ == next,
                Err(fault) => stored matches Err(error) && error@ == fault && final(self)@ == old(
                    self,
                )@,
            },
    {
        match (field, value) {
            (Field::Index, FieldValue::Index(index)) => {
                self.builder.index(index);
            },
            (Field::Context, FieldValue::Context(context)) => {
                self.builder.context(context);
            },
            (Field::Key, FieldValue::Key(key)) => {
                self.builder.key(key);
            },
            _ => {
                return Err(CodecError::InvalidValue(field));
            },
        }
        if self.read < RECORD_FIELDS {
            self.read = self.read + 1;
        }
        Ok(())
    }

    /// Ends the reading. With fewer than three entries stored the record has
    /// the wrong length. Otherwise the stored fields make the session, unless
    /// one of them is missing: then the first missing field, in the order
    /// `index`, `context`, `key`, is named.
    pub fn finish(&self) -> (session: Result<Session, CodecError>)
        ensures
            result_view(session) == self@.finish(),
    {
        if self.read < RECORD_FIELDS {
            return Err(CodecError::WrongLength(self.read));
        }
        match self.builder.build_full() {
            Ok(session) => Ok(session),
            Err(missing) => {
                let field = if missing[0] {
                    Field::Index
                } else if missing[1] {
                    Field::Context
                } else {
                    Field::Key
                };
                Err(CodecError::MissingField(field))
            },
        }
    }
}

/// Reads a session from a record.
///
/// The entries are read in order, all of them. An entry with a name other
/// than `index`, `context` and `key`, or with a value that belongs to
/// another field than its name says, ends the reading with that error. A
/// record of fewer than three entries has the wrong length. Of two entries
/// for one field the later one counts, and a field that no entry supplies is
/// reported as missing.
pub fn decode_record(entries: &[RecordEntry]) -> (session: Result<Session, CodecError>)
    ensures
        result_view(session) == decoded(record_view(entries@)),
{
    let ghost all = record_view(entries@);
    let mut decoder = SessionDecoder::new();
    let mut i: usize = 0;
    assert(all.take(0) =~= Seq::<EntryView>::empty());
    while i < entries.len()
        invariant
            i <= entries@.len(),
            all == record_view(entries@),
            decoder@.read == counted(i as nat),
            decoder@.fields == collected(all.take(i as int)),
            first_fault(all.take(i as int)) is None,
        decreases entries@.len() - i,
    {
        let entry = &entries[i];
        proof {
            let k = i as int;
            assert(all[k] == entry@);
            assert(all.take(k + 1).drop_last() =~= all.take(k));
            assert(all.take(k + 1).last() == all[k]);
            if first_fault(all.take(k + 1)) is Some {
                lemma_fault_persists(all.take(k + 1), all);
            }
        }
        let field = match SessionDecoder::field_named(entry.name.as_str()) {
            Ok(field) => field,
            Err(error) => {
                return Err(error);
            },
        };
        match decoder.accept(field, entry.value.duplicate()) {
            Ok(()) => {},
            Err(error) => {
                return Err(error);
            },
        }
        i += 1;
    }
    proof {
        assert(all.take(i as int) =~= all);
    }
    decoder.finish()
}

/// A fault among the first entries of a record is the first fault of the
/// whole record.
pub proof fn lemma_fault_persists(head: Seq<EntryView>, entries: Seq<EntryView>)
    requires
        head.len() <= entries.len(),
        head == entries.take(head.len() as int),
        first_fault(head) is Some,
    ensures
        first_fault(entries) == first_fault(head),
    decreases entries.len() - head.len(),
{
    if head.len() < entries.len() {
        let longer = entries.take(head.len() as int + 1);
        assert(longer.drop_last() =~= head);
        lemma_fault_persists(longer, entries);
    } else {
        assert(head =~= entries);
    }
}

/// Writes a session as a record: the three fields in the order `index`,
/// `context`, `key`, each under its name.
pub fn encode_session(session: &Session) -> (entries: Vec<RecordEntry>)
    ensures
        record_view(entries@) == encoded(session@),
{
    let mut entries: Vec<RecordEntry> = Vec::new();
    entries.push(
        RecordEntry {
            name: Field::Index.name().to_owned(),
            value: FieldValue::Index(session.index()),
        },
    );
    entries.push(
        RecordEntry {
            name: Field::Context.name().to_owned(),
            value: FieldValue::Context(*session.context()),
        },
    );
    entries.push(
        RecordEntry {
            name: Field::Key.name().to_owned(),
            value: FieldValue::Key(session.key().duplicate()),
        },
    );
    assert(record_view(entries@) =~= encoded(session@));
    entries
}

/// Reading back the record of a session gives that session.
pub proof fn lemma_round_trip(session: SessionView)
    ensures
        decoded(encoded(session)) == Ok::<SessionView, CodecErrorView>(session),
{
    let entries = encoded(session);
    lemma_field_names(Field::Index);
    lemma_field_names(Field::Context);
    lemma_field_names(Field::Key);
    let two = entries.drop_last();
    let one = two.drop_last();
    let none = one.drop_last();
    assert(none.len() == 0);
    assert(one.last() == entries[0] && two.last() == entries[1]);
    assert(first_fault(none) is None);
    assert(collected(none) == BuilderView::empty());
    assert(entry_fault(entries[0]) is None);
    assert(entry_fault(entries[1]) is None);
    assert(entry_fault(entries[2]) is None);
    assert(first_fault(one) is None);
    assert(first_fault(two) is None);
    assert(first_fault(entries) is None);
    assert(collected(one) == stored(BuilderView::empty(), entries[0].value));
    assert(collected(two) == stored(collected(one), entries[1].value));
    assert(collected(entries) == stored(collected(two), entries[2].value));
}

/// An entry under an unknown name fails the record, wherever it stands: it
/// is never passed over. Where no entry before it is faulty, the error is
/// that of the unknown field and carries the name.
pub proof fn lemma_unknown_field_rejected(entries: Seq<EntryView>, at: int)
    requires
        0 <= at < entries.len(),
        Field::named(entries[at].name) is None,
    ensures
        decoded(entries) is Err,
        first_fault(entries.take(at)) is None ==> decoded(entries) == Err::<
            SessionView,
            CodecErrorView,
        >(CodecErrorView::UnknownField(entries[at].name)),
{
    let head = entries.take(at + 1);
    assert(head.drop_last() =~= entries.take(at));
    assert(head.last() == entries[at]);
    assert(first_fault(head) is Some);
    lemma_fault_persists(head, entries);
}

/// Whether one of `entries` carries the name of `field`.
pub open spec fn supplies(entries: Seq<EntryView>, field: Field) -> bool {
    exists|i: int|
        0 <= i < entries.len() && Field::named(#[trigger] entries[i].name) == Some(field)
}

/// Whether `field` is set in `fields`.
pub open spec fn holds(fields: BuilderView, field: Field) -> bool {
    match field {
        Field::Index => fields.index is Some,
        Field::Context => fields.context is Some,
        Field::Key => fields.key is Some,
    }
}

/// Among the fields collected from faultless entries, a field is set exactly
/// when one of the entries carries its name.
pub proof fn lemma_collected_fields(entries: Seq<EntryView>, field: Field)
    requires
        first_fault(entries) is None,
    ensures
        holds(collected(entries), field) <==> supplies(entries, field),
    decreases entries.len(),
{
    if entries.len() > 0 {
        let head = entries.drop_last();
        let n = head.len() as int;
        lemma_collected_fields(head, field);
        assert(entry_fault(entries[n]) is None);
        if supplies(entries, field) {
            let i = choose|i: int|
                0 <= i < entries.len() && Field::named(#[trigger] entries[i].name) == Some(field);
            if i < n {
                assert(Field::named(head[i].name) == Some(field));
            }
        }
        if holds(collected(entries), field) {
            if holds(collected(head), field) {
                let i = choose|i: int|
                    0 <= i < head.len() && Field::named(#[trigger] head[i].name) == Some(field);
                assert(Field::named(entries[i].name) == Some(field));
            } else {
                assert(Field::named(entries[n].name) == Some(field));
            }
        }
    }
}

/// A record of at least three entries, all faultless, that supplies two of
/// the three fields but not the third fails with the error that names the
/// third.
pub proof fn lemma_missing_field_reported(entries: Seq<EntryView>, absent: Field)
    requires
        entries.len() >= RECORD_FIELDS,
        first_fault(entries) is None,
        !supplies(entries, absent),
        forall|field: Field| field != absent ==> supplies(entries, field),
    ensures
        decoded(entries) == Err::<SessionView, CodecErrorView>(
            CodecErrorView::MissingField(absent),
        ),
{
    lemma_collected_fields(entries, Field::Index);
    lemma_collected_fields(entries, Field::Context);
    lemma_collected_fields(entries, Field::Key);
    assert(absent != Field::Index ==> supplies(entries, Field::Index));
    assert(absent != Field::Context ==> supplies(entries, Field::Context));
    assert(absent != Field::Key ==> supplies(entries, Field::Key));
}

} // verus!
