//! The structured record types that the cache stores: profile metadata,
//! relay descriptors, timeline posts, full articles and zap receipts.
//!
//! Each type carries a deep view whose fields are sequences, and a `Record`
//! implementation that fixes its byte encoding. Identifiers that the wire
//! protocol represents with its own types (event ids, public keys, event
//! kinds) are held as their stable plain forms: hex strings and integers.

use vstd::prelude::*;

use crate::codec::{Reader, Record};

verus! {

// ---------------------------------------------------------------------------
// An unknown profile field, preserved opaquely
// ---------------------------------------------------------------------------

/// A profile field this client does not interpret: the field's name and its
/// raw serialized value, kept so that unknown fields survive a cache round
/// trip instead of being dropped.
#[derive(Debug, Clone, PartialEq, Eq)]
pub struct ExtraField {
    pub key: String,
    pub value: String,
}

pub struct ExtraFieldView {
    pub key: Seq<char>,
    pub value: Seq<char>,
}

impl DeepView for ExtraField {
    type V = ExtraFieldView;

    open spec fn deep_view(&self) -> ExtraFieldView {
        ExtraFieldView { key: self.key@, value: self.value@ }
    }
}

impl Record for ExtraField {
    open spec fn wf_m(m: ExtraFieldView) -> bool {
        String::wf_m(m.key) && String::wf_m(m.value)
    }

    open spec fn enc_m(m: ExtraFieldView) -> Seq<u8> {
        String::enc_m(m.key) + String::enc_m(m.value)
    }

    open spec fn dec_m(b: Seq<u8>) -> Option<(ExtraFieldView, Seq<u8>)> {
        match String::dec_m(b) {
            Some((k, r)) => match String::dec_m(r) {
                Some((v, r2)) => Some((ExtraFieldView { key: k, value: v }, r2)),
                None => None,
            },
            None => None,
        }
    }

    proof fn lemma_dec_enc(m: ExtraFieldView, rest: Seq<u8>) {
        assert(Self::enc_m(m) + rest =~= String::enc_m(m.key) + (String::enc_m(m.value) + rest));
        String::lemma_dec_enc(m.key, String::enc_m(m.value) + rest);
        String::lemma_dec_enc(m.value, rest);
    }

    proof fn lemma_enc_len(m: ExtraFieldView) {
    }

    fn write(&self, out: &mut Vec<u8>) {
        self.key.write(out);
        self.value.write(out);
        assert(out@ =~= old(out)@ + Self::enc_m(self.deep_view()));
    }

    fn read(r: &mut Reader<'_>) -> (res: Option<Self>) {
        let key = match String::read(r) {
            Some(k) => k,
            None => {
                return None;
            },
        };
        let value = match String::read(r) {
            Some(v) => v,
            None => {
                return None;
            },
        };
        Some(ExtraField { key, value })
    }
}

// ---------------------------------------------------------------------------
// Profile metadata
// ---------------------------------------------------------------------------

/// A user's profile record: the named fields this client shows, plus any
/// fields it does not interpret, preserved as they came.
#[derive(Debug, Clone, PartialEq, Eq, Default)]
pub struct ProfileMetadata {
    pub name: String,
    pub about: String,
    pub picture: String,
    pub nip05: String,
    pub lud16: String,
    pub extra: Vec<ExtraField>,
}

pub struct ProfileMetadataView {
    pub name: Seq<char>,
    pub about: Seq<char>,
    pub picture: Seq<char>,
    pub nip05: Seq<char>,
    pub lud16: Seq<char>,
    pub extra: Seq<ExtraFieldView>,
}

impl DeepView for ProfileMetadata {
    type V = ProfileMetadataView;

    open spec fn deep_view(&self) -> ProfileMetadataView {
        ProfileMetadataView {
            name: self.name@,
            about: self.about@,
            picture: self.picture@,
            nip05: self.nip05@,
            lud16: self.lud16@,
            extra: self.extra.deep_view(),
        }
    }
}

impl Record for ProfileMetadata {
    open spec fn wf_m(m: ProfileMetadataView) -> bool {
        &&& String::wf_m(m.name)
        &&& String::wf_m(m.about)
        &&& String::wf_m(m.picture)
        &&& String::wf_m(m.nip05)
        &&& String::wf_m(m.lud16)
        &&& Vec::<ExtraField>::wf_m(m.extra)
    }

    open spec fn enc_m(m: ProfileMetadataView) -> Seq<u8> {
        String::enc_m(m.name) + String::enc_m(m.about) + String::enc_m(m.picture) + String::enc_m(
            m.nip05,
        ) + String::enc_m(m.lud16) + Vec::<ExtraField>::enc_m(m.extra)
    }

    open spec fn dec_m(b: Seq<u8>) -> Option<(ProfileMetadataView, Seq<u8>)> {
        match String::dec_m(b) {
            Some((name, r1)) => match String::dec_m(r1) {
                Some((about, r2)) => match String::dec_m(r2) {
                    Some((picture, r3)) => match String::dec_m(r3) {
                        Some((nip05, r4)) => match String::dec_m(r4) {
                            Some((lud16, r5)) => match Vec::<ExtraField>::dec_m(r5) {
                                Some((extra, r6)) => Some(
                                    (
                                        ProfileMetadataView {
                                            name,
                                            about,
                                            picture,
                                            nip05,
                                            lud16,
                                            extra,
                                        },
                                        r6,
                                    ),
                                ),
                                None => None,
                            },
                            None => None,
                        },
                        None => None,
                    },
                    None => None,
                },
                None => None,
            },
            None => None,
        }
    }

    proof fn lemma_dec_enc(m: ProfileMetadataView, rest: Seq<u8>) {
        let e_about = String::enc_m(m.about);
        let e_picture = String::enc_m(m.picture);
        let e_nip05 = String::enc_m(m.nip05);
        let e_lud16 = String::enc_m(m.lud16);
        let e_extra = Vec::<ExtraField>::enc_m(m.extra);
        let t5 = e_extra + rest;
        let t4 = e_lud16 + t5;
        let t3 = e_nip05 + t4;
        let t2 = e_picture + t3;
        let t1 = e_about + t2;
        assert(Self::enc_m(m) + rest =~= String::enc_m(m.name) + t1);
        String::lemma_dec_enc(m.name, t1);
        String::lemma_dec_enc(m.about, t2);
        String::lemma_dec_enc(m.picture, t3);
        String::lemma_dec_enc(m.nip05, t4);
        String::lemma_dec_enc(m.lud16, t5);
        Vec::<ExtraField>::lemma_dec_enc(m.extra, rest);
    }

    proof fn lemma_enc_len(m: ProfileMetadataView) {
    }

    #[verifier::rlimit(60)]
    fn write(&self, out: &mut Vec<u8>) {
        self.name.write(out);
        self.about.write(out);
        self.picture.write(out);
        self.nip05.write(out);
        self.lud16.write(out);
        self.extra.write(out);
        assert(out@ =~= old(out)@ + Self::enc_m(self.deep_view()));
    }

    fn read(r: &mut Reader<'_>) -> (res: Option<Self>) {
        let name = match String::read(r) {
            Some(v) => v,
            None => {
                return None;
            },
        };
        let about = match String::read(r) {
            Some(v) => v,
            None => {
                return None;
            },
        };
        let picture = match String::read(r) {
            Some(v) => v,
            None => {
                return None;
            },
        };
        let nip05 = match String::read(r) {
            Some(v) => v,
            None => {
                return None;
            },
        };
        let lud16 = match String::read(r) {
            Some(v) => v,
            None => {
                return None;
            },
        };
        let extra = match Vec::<ExtraField>::read(r) {
            Some(v) => v,
            None => {
                return None;
            },
        };
        Some(ProfileMetadata { name, about, picture, nip05, lud16, extra })
    }
}

// ---------------------------------------------------------------------------
// EditableRelay
// ---------------------------------------------------------------------------

/// One relay row of the user's relay list: its URL and whether the
/// client reads from and writes to it.
#[derive(Debug, Clone, PartialEq, Eq)]
pub struct EditableRelay {
    pub url: String,
    pub read: bool,
    pub write: bool,
}

pub struct EditableRelayView {
    pub url: Seq<char>,
    pub read: bool,
    pub write: bool,
}

impl DeepView for EditableRelay {
    type V = EditableRelayView;

    open spec fn deep_view(&self) -> EditableRelayView {
        EditableRelayView {
            url: self.url@,
            read: self.read,
            write: self.write,
        }
    }
}

impl Record for EditableRelay {
    open spec fn wf_m(m: EditableRelayView) -> bool {
        &&& String::wf_m(m.url)
        &&& bool::wf_m(m.read)
        &&& bool::wf_m(m.write)
    }

    open spec fn enc_m(m: EditableRelayView) -> Seq<u8> {
        String::enc_m(m.url) + bool::enc_m(m.read) + bool::enc_m(m.write)
    }

    open spec fn dec_m(b: Seq<u8>) -> Option<(EditableRelayView, Seq<u8>)> {
        match String::dec_m(b) {
            Some((url, r1)) =>
            match bool::dec_m(r1) {
                Some((read, r2)) =>
                match bool::dec_m(r2) {
                    Some((write, r3)) =>
                        Some((EditableRelayView { url, read, write }, r3)),
                    None => None,
                },
                None => None,
            },
            None => None,
        }
    }

    proof fn lemma_dec_enc(m: EditableRelayView, rest: Seq<u8>) {
        let t3 = rest;
        let t2 = bool::enc_m(m.write) + t3;
        let t1 = bool::enc_m(m.read) + t2;
        assert(Self::enc_m(m) + rest =~= String::enc_m(m.url) + t1);
        String::lemma_dec_enc(m.url, t1);
        bool::lemma_dec_enc(m.read, t2);
        bool::lemma_dec_enc(m.write, t3);
    }

    proof fn lemma_enc_len(m: EditableRelayView) {
    }

    fn write(&self, out: &mut Vec<u8>) {
        self.url.write(out);
        self.read.write(out);
        self.write.write(out);
        assert(out@ =~= old(out)@ + Self::enc_m(self.deep_view()));
    }

    fn read(r: &mut Reader<'_>) -> (res: Option<Self>) {
        let url = match String::read(r) {
            Some(v) => v,
            None => {
                return None;
            },
        };
        let read = match bool::read(r) {
            Some(v) => v,
            None => {
                return None;
            },
        };
        let write = match bool::read(r) {
            Some(v) => v,
            None => {
                return None;
            },
        };
        Some(EditableRelay { url, read, write })
    }
}

// ---------------------------------------------------------------------------
// TimelinePost
// ---------------------------------------------------------------------------

/// One post of a cached timeline snapshot, together with its author's
/// profile as known at fetch time.
#[derive(Debug, Clone, PartialEq, Eq)]
pub struct TimelinePost {
    pub id: String,
    pub kind: u64,
    pub author_pubkey: String,
    pub author_metadata: ProfileMetadata,
    pub title: String,
    pub summary: String,
    pub created_at: u64,
    pub tags: Vec<Vec<String>>,
}

pub struct TimelinePostView {
    pub id: Seq<char>,
    pub kind: u64,
    pub author_pubkey: Seq<char>,
    pub author_metadata: ProfileMetadataView,
    pub title: Seq<char>,
    pub summary: Seq<char>,
    pub created_at: u64,
    pub tags: Seq<Seq<Seq<char>>>,
}

impl DeepView for TimelinePost {
    type V = TimelinePostView;

    open spec fn deep_view(&self) -> TimelinePostView {
        TimelinePostView {
            id: self.id@,
            kind: self.kind,
            author_pubkey: self.author_pubkey@,
            author_metadata: self.author_metadata.deep_view(),
            title: self.title@,
            summary: self.summary@,
            created_at: self.created_at,
            tags: self.tags.deep_view(),
        }
    }
}

impl Record for TimelinePost {
    open spec fn wf_m(m: TimelinePostView) -> bool {
        &&& String::wf_m(m.id)
        &&& u64::wf_m(m.kind)
        &&& String::wf_m(m.author_pubkey)
        &&& ProfileMetadata::wf_m(m.author_metadata)
        &&& String::wf_m(m.title)
        &&& String::wf_m(m.summary)
        &&& u64::wf_m(m.created_at)
        &&& Vec::<Vec<String>>::wf_m(m.tags)
    }

    open spec fn enc_m(m: TimelinePostView) -> Seq<u8> {
        String::enc_m(m.id) + u64::enc_m(m.kind) + String::enc_m(m.author_pubkey) + ProfileMetadata::enc_m(m.author_metadata) + String::enc_m(m.title) + String::enc_m(m.summary) + u64::enc_m(m.created_at) + Vec::<Vec<String>>::enc_m(m.tags)
    }

    open spec fn dec_m(b: Seq<u8>) -> Option<(TimelinePostView, Seq<u8>)> {
        match String::dec_m(b) {
            Some((id, r1)) =>
            match u64::dec_m(r1) {
                Some((kind, r2)) =>
                match String::dec_m(r2) {
                    Some((author_pubkey, r3)) =>
                    match ProfileMetadata::dec_m(r3) {
                        Some((author_metadata, r4)) =>
                        match String::dec_m(r4) {
                            Some((title, r5)) =>
                            match String::dec_m(r5) {
                                Some((summary, r6)) =>
                                match u64::dec_m(r6) {
                                    Some((created_at, r7)) =>
                                    match Vec::<Vec<String>>::dec_m(r7) {
                                        Some((tags, r8)) =>
                                            Some((TimelinePostView { id, kind, author_pubkey, author_metadata, title, summary, created_at, tags }, r8)),
                                        None => None,
                                    },
                                    None => None,
                                },
                                None => None,
                            },
                            None => None,
                        },
                        None => None,
                    },
                    None => None,
                },
                None => None,
            },
            None => None,
        }
    }

    proof fn lemma_dec_enc(m: TimelinePostView, rest: Seq<u8>) {
        let e1 = String::enc_m(m.id);
        let e2 = u64::enc_m(m.kind);
        let e3 = String::enc_m(m.author_pubkey);
        let e4 = ProfileMetadata::enc_m(m.author_metadata);
        let e5 = String::enc_m(m.title);
        let e6 = String::enc_m(m.summary);
        let e7 = u64::enc_m(m.created_at);
        let e8 = Vec::<Vec<String>>::enc_m(m.tags);
        let a1 = e1;
        let a2 = a1 + e2;
        let a3 = a2 + e3;
        let a4 = a3 + e4;
        let a5 = a4 + e5;
        let a6 = a5 + e6;
        let a7 = a6 + e7;
        let a8 = a7 + e8;
        assert(Self::enc_m(m) == a8);
        let t9 = rest;
        let t8 = e8 + t9;
        let t7 = e7 + t8;
        let t6 = e6 + t7;
        let t5 = e5 + t6;
        let t4 = e4 + t5;
        let t3 = e3 + t4;
        let t2 = e2 + t3;
        let t1 = e1 + t2;
        assert(a8 + rest == a8 + t9);
        assert((a7 + e8) + t9 =~= a7 + t8);
        assert((a6 + e7) + t8 =~= a6 + t7);
        assert((a5 + e6) + t7 =~= a5 + t6);
        assert((a4 + e5) + t6 =~= a4 + t5);
        assert((a3 + e4) + t5 =~= a3 + t4);
        assert((a2 + e3) + t4 =~= a2 + t3);
        assert((a1 + e2) + t3 =~= a1 + t2);
        assert(Self::enc_m(m) + rest == a1 + t2);
        assert(a1 + t2 == t1);
        String::lemma_dec_enc(m.id, t2);
        u64::lemma_dec_enc(m.kind, t3);
        String::lemma_dec_enc(m.author_pubkey, t4);
        ProfileMetadata::lemma_dec_enc(m.author_metadata, t5);
        String::lemma_dec_enc(m.title, t6);
        String::lemma_dec_enc(m.summary, t7);
        u64::lemma_dec_enc(m.created_at, t8);
        Vec::<Vec<String>>::lemma_dec_enc(m.tags, t9);
    }

    proof fn lemma_enc_len(m: TimelinePostView) {
    }

    #[verifier::rlimit(60)]
    fn write(&self, out: &mut Vec<u8>) {
        self.id.write(out);
        self.kind.write(out);
        self.author_pubkey.write(out);
        self.author_metadata.write(out);
        self.title.write(out);
        self.summary.write(out);
        self.created_at.write(out);
        self.tags.write(out);
        assert(out@ =~= old(out)@ + Self::enc_m(self.deep_view()));
    }

    fn read(r: &mut Reader<'_>) -> (res: Option<Self>) {
        let id = match String::read(r) {
            Some(v) => v,
            None => {
                return None;
            },
        };
        let kind = match u64::read(r) {
            Some(v) => v,
            None => {
                return None;
            },
        };
        let author_pubkey = match String::read(r) {
            Some(v) => v,
            None => {
                return None;
            },
        };
        let author_metadata = match ProfileMetadata::read(r) {
            Some(v) => v,
            None => {
                return None;
            },
        };
        let title = match String::read(r) {
            Some(v) => v,
            None => {
                return None;
            },
        };
        let summary = match String::read(r) {
            Some(v) => v,
            None => {
                return None;
            },
        };
        let created_at = match u64::read(r) {
            Some(v) => v,
            None => {
                return None;
            },
        };
        let tags = match Vec::<Vec<String>>::read(r) {
            Some(v) => v,
            None => {
                return None;
            },
        };
        Some(TimelinePost { id, kind, author_pubkey, author_metadata, title, summary, created_at, tags })
    }
}

// ---------------------------------------------------------------------------
// ArticleFull
// ---------------------------------------------------------------------------

/// A full long-form article: like a timeline post, but carrying the whole
/// content rather than a summary.
#[derive(Debug, Clone, PartialEq, Eq)]
pub struct ArticleFull {
    pub id: String,
    pub kind: u64,
    pub author_pubkey: String,
    pub author_metadata: ProfileMetadata,
    pub title: String,
    pub content: String,
    pub created_at: u64,
    pub tags: Vec<Vec<String>>,
}

pub struct ArticleFullView {
    pub id: Seq<char>,
    pub kind: u64,
    pub author_pubkey: Seq<char>,
    pub author_metadata: ProfileMetadataView,
    pub title: Seq<char>,
    pub content: Seq<char>,
    pub created_at: u64,
    pub tags: Seq<Seq<Seq<char>>>,
}

impl DeepView for ArticleFull {
    type V = ArticleFullView;

    open spec fn deep_view(&self) -> ArticleFullView {
        ArticleFullView {
            id: self.id@,
            kind: self.kind,
            author_pubkey: self.author_pubkey@,
            author_metadata: self.author_metadata.deep_view(),
            title: self.title@,
            content: self.content@,
            created_at: self.created_at,
            tags: self.tags.deep_view(),
        }
    }
}

impl Record for ArticleFull {
    open spec fn wf_m(m: ArticleFullView) -> bool {
        &&& String::wf_m(m.id)
        &&& u64::wf_m(m.kind)
        &&& String::wf_m(m.author_pubkey)
        &&& ProfileMetadata::wf_m(m.author_metadata)
        &&& String::wf_m(m.title)
        &&& String::wf_m(m.content)
        &&& u64::wf_m(m.created_at)
        &&& Vec::<Vec<String>>::wf_m(m.tags)
    }

    open spec fn enc_m(m: ArticleFullView) -> Seq<u8> {
        String::enc_m(m.id) + u64::enc_m(m.kind) + String::enc_m(m.author_pubkey) + ProfileMetadata::enc_m(m.author_metadata) + String::enc_m(m.title) + String::enc_m(m.content) + u64::enc_m(m.created_at) + Vec::<Vec<String>>::enc_m(m.tags)
    }

    open spec fn dec_m(b: Seq<u8>) -> Option<(ArticleFullView, Seq<u8>)> {
        match String::dec_m(b) {
            Some((id, r1)) =>
            match u64::dec_m(r1) {
                Some((kind, r2)) =>
                match String::dec_m(r2) {
                    Some((author_pubkey, r3)) =>
                    match ProfileMetadata::dec_m(r3) {
                        Some((author_metadata, r4)) =>
                        match String::dec_m(r4) {
                            Some((title, r5)) =>
                            match String::dec_m(r5) {
                                Some((content, r6)) =>
                                match u64::dec_m(r6) {
                                    Some((created_at, r7)) =>
                                    match Vec::<Vec<String>>::dec_m(r7) {
                                        Some((tags, r8)) =>
                                            Some((ArticleFullView { id, kind, author_pubkey, author_metadata, title, content, created_at, tags }, r8)),
                                        None => None,
                                    },
                                    None => None,
                                },
                                None => None,
                            },
                            None => None,
                        },
                        None => None,
                    },
                    None => None,
                },
                None => None,
            },
            None => None,
        }
    }

    proof fn lemma_dec_enc(m: ArticleFullView, rest: Seq<u8>) {
        let e1 = String::enc_m(m.id);
        let e2 = u64::enc_m(m.kind);
        let e3 = String::enc_m(m.author_pubkey);
        let e4 = ProfileMetadata::enc_m(m.author_metadata);
        let e5 = String::enc_m(m.title);
        let e6 = String::enc_m(m.content);
        let e7 = u64::enc_m(m.created_at);
        let e8 = Vec::<Vec<String>>::enc_m(m.tags);
        let a1 = e1;
        let a2 = a1 + e2;
        let a3 = a2 + e3;
        let a4 = a3 + e4;
        let a5 = a4 + e5;
        let a6 = a5 + e6;
        let a7 = a6 + e7;
        let a8 = a7 + e8;
        assert(Self::enc_m(m) == a8);
        let t9 = rest;
        let t8 = e8 + t9;
        let t7 = e7 + t8;
        let t6 = e6 + t7;
        let t5 = e5 + t6;
        let t4 = e4 + t5;
        let t3 = e3 + t4;
        let t2 = e2 + t3;
        let t1 = e1 + t2;
        assert(a8 + rest == a8 + t9);
        assert((a7 + e8) + t9 =~= a7 + t8);
        assert((a6 + e7) + t8 =~= a6 + t7);
        assert((a5 + e6) + t7 =~= a5 + t6);
        assert((a4 + e5) + t6 =~= a4 + t5);
        assert((a3 + e4) + t5 =~= a3 + t4);
        assert((a2 + e3) + t4 =~= a2 + t3);
        assert((a1 + e2) + t3 =~= a1 + t2);
        assert(Self::enc_m(m) + rest == a1 + t2);
        assert(a1 + t2 == t1);
        String::lemma_dec_enc(m.id, t2);
        u64::lemma_dec_enc(m.kind, t3);
        String::lemma_dec_enc(m.author_pubkey, t4);
        ProfileMetadata::lemma_dec_enc(m.author_metadata, t5);
        String::lemma_dec_enc(m.title, t6);
        String::lemma_dec_enc(m.content, t7);
        u64::lemma_dec_enc(m.created_at, t8);
        Vec::<Vec<String>>::lemma_dec_enc(m.tags, t9);
    }

    proof fn lemma_enc_len(m: ArticleFullView) {
    }

    #[verifier::rlimit(60)]
    fn write(&self, out: &mut Vec<u8>) {
        self.id.write(out);
        self.kind.write(out);
        self.author_pubkey.write(out);
        self.author_metadata.write(out);
        self.title.write(out);
        self.content.write(out);
        self.created_at.write(out);
        self.tags.write(out);
        assert(out@ =~= old(out)@ + Self::enc_m(self.deep_view()));
    }

    fn read(r: &mut Reader<'_>) -> (res: Option<Self>) {
        let id = match String::read(r) {
            Some(v) => v,
            None => {
                return None;
            },
        };
        let kind = match u64::read(r) {
            Some(v) => v,
            None => {
                return None;
            },
        };
        let author_pubkey = match String::read(r) {
            Some(v) => v,
            None => {
                return None;
            },
        };
        let author_metadata = match ProfileMetadata::read(r) {
            Some(v) => v,
            None => {
                return None;
            },
        };
        let title = match String::read(r) {
            Some(v) => v,
            None => {
                return None;
            },
        };
        let content = match String::read(r) {
            Some(v) => v,
            None => {
                return None;
            },
        };
        let created_at = match u64::read(r) {
            Some(v) => v,
            None => {
                return None;
            },
        };
        let tags = match Vec::<Vec<String>>::read(r) {
            Some(v) => v,
            None => {
                return None;
            },
        };
        Some(ArticleFull { id, kind, author_pubkey, author_metadata, title, content, created_at, tags })
    }
}

// ---------------------------------------------------------------------------
// ZapReceipt
// ---------------------------------------------------------------------------

/// A receipt of one lightning zap payment, as kept in the zap history
/// partition.
#[derive(Debug, Clone, PartialEq, Eq)]
pub struct ZapReceipt {
    pub id: String,
    pub zapper_pubkey: Option<String>,
    pub recipient_pubkey: String,
    pub recipient_metadata: ProfileMetadata,
    pub amount_msats: u64,
    pub created_at: u64,
    pub note: String,
    pub zapped_event_id: Option<String>,
}

pub struct ZapReceiptView {
    pub id: Seq<char>,
    pub zapper_pubkey: Option<Seq<char>>,
    pub recipient_pubkey: Seq<char>,
    pub recipient_metadata: ProfileMetadataView,
    pub amount_msats: u64,
    pub created_at: u64,
    pub note: Seq<char>,
    pub zapped_event_id: Option<Seq<char>>,
}

impl DeepView for ZapReceipt {
    type V = ZapReceiptView;

    open spec fn deep_view(&self) -> ZapReceiptView {
        ZapReceiptView {
            id: self.id@,
            zapper_pubkey: self.zapper_pubkey.deep_view(),
            recipient_pubkey: self.recipient_pubkey@,
            recipient_metadata: self.recipient_metadata.deep_view(),
            amount_msats: self.amount_msats,
            created_at: self.created_at,
            note: self.note@,
            zapped_event_id: self.zapped_event_id.deep_view(),
        }
    }
}

impl Record for ZapReceipt {
    open spec fn wf_m(m: ZapReceiptView) -> bool {
        &&& String::wf_m(m.id)
        &&& Option::<String>::wf_m(m.zapper_pubkey)
        &&& String::wf_m(m.recipient_pubkey)
        &&& ProfileMetadata::wf_m(m.recipient_metadata)
        &&& u64::wf_m(m.amount_msats)
        &&& u64::wf_m(m.created_at)
        &&& String::wf_m(m.note)
        &&& Option::<String>::wf_m(m.zapped_event_id)
    }

    open spec fn enc_m(m: ZapReceiptView) -> Seq<u8> {
        String::enc_m(m.id) + Option::<String>::enc_m(m.zapper_pubkey) + String::enc_m(m.recipient_pubkey) + ProfileMetadata::enc_m(m.recipient_metadata) + u64::enc_m(m.amount_msats) + u64::enc_m(m.created_at) + String::enc_m(m.note) + Option::<String>::enc_m(m.zapped_event_id)
    }

    open spec fn dec_m(b: Seq<u8>) -> Option<(ZapReceiptView, Seq<u8>)> {
        match String::dec_m(b) {
            Some((id, r1)) =>
            match Option::<String>::dec_m(r1) {
                Some((zapper_pubkey, r2)) =>
                match String::dec_m(r2) {
                    Some((recipient_pubkey, r3)) =>
                    match ProfileMetadata::dec_m(r3) {
                        Some((recipient_metadata, r4)) =>
                        match u64::dec_m(r4) {
                            Some((amount_msats, r5)) =>
                            match u64::dec_m(r5) {
                                Some((created_at, r6)) =>
                                match String::dec_m(r6) {
                                    Some((note, r7)) =>
                                    match Option::<String>::dec_m(r7) {
                                        Some((zapped_event_id, r8)) =>
                                            Some((ZapReceiptView { id, zapper_pubkey, recipient_pubkey, recipient_metadata, amount_msats, created_at, note, zapped_event_id }, r8)),
                                        None => None,
                                    },
                                    None => None,
                                },
                                None => None,
                            },
                            None => None,
                        },
                        None => None,
                    },
                    None => None,
                },
                None => None,
            },
            None => None,
        }
    }

    proof fn lemma_dec_enc(m: ZapReceiptView, rest: Seq<u8>) {
        let e1 = String::enc_m(m.id);
        let e2 = Option::<String>::enc_m(m.zapper_pubkey);
        let e3 = String::enc_m(m.recipient_pubkey);
        let e4 = ProfileMetadata::enc_m(m.recipient_metadata);
        let e5 = u64::enc_m(m.amount_msats);
        let e6 = u64::enc_m(m.created_at);
        let e7 = String::enc_m(m.note);
        let e8 = Option::<String>::enc_m(m.zapped_event_id);
        let a1 = e1;
        let a2 = a1 + e2;
        let a3 = a2 + e3;
        let a4 = a3 + e4;
        let a5 = a4 + e5;
        let a6 = a5 + e6;
        let a7 = a6 + e7;
        let a8 = a7 + e8;
        assert(Self::enc_m(m) == a8);
        let t9 = rest;
        let t8 = e8 + t9;
        let t7 = e7 + t8;
        let t6 = e6 + t7;
        let t5 = e5 + t6;
        let t4 = e4 + t5;
        let t3 = e3 + t4;
        let t2 = e2 + t3;
        let t1 = e1 + t2;
        assert(a8 + rest == a8 + t9);
        assert((a7 + e8) + t9 =~= a7 + t8);
        assert((a6 + e7) + t8 =~= a6 + t7);
        assert((a5 + e6) + t7 =~= a5 + t6);
        assert((a4 + e5) + t6 =~= a4 + t5);
        assert((a3 + e4) + t5 =~= a3 + t4);
        assert((a2 + e3) + t4 =~= a2 + t3);
        assert((a1 + e2) + t3 =~= a1 + t2);
        assert(Self::enc_m(m) + rest == a1 + t2);
        assert(a1 + t2 == t1);
        String::lemma_dec_enc(m.id, t2);
        Option::<String>::lemma_dec_enc(m.zapper_pubkey, t3);
        String::lemma_dec_enc(m.recipient_pubkey, t4);
        ProfileMetadata::lemma_dec_enc(m.recipient_metadata, t5);
        u64::lemma_dec_enc(m.amount_msats, t6);
        u64::lemma_dec_enc(m.created_at, t7);
        String::lemma_dec_enc(m.note, t8);
        Option::<String>::lemma_dec_enc(m.zapped_event_id, t9);
    }

    proof fn lemma_enc_len(m: ZapReceiptView) {
    }

    #[verifier::rlimit(60)]
    fn write(&self, out: &mut Vec<u8>) {
        self.id.write(out);
        self.zapper_pubkey.write(out);
        self.recipient_pubkey.write(out);
        self.recipient_metadata.write(out);
        self.amount_msats.write(out);
        self.created_at.write(out);
        self.note.write(out);
        self.zapped_event_id.write(out);
        assert(out@ =~= old(out)@ + Self::enc_m(self.deep_view()));
    }

    fn read(r: &mut Reader<'_>) -> (res: Option<Self>) {
        let id = match String::read(r) {
            Some(v) => v,
            None => {
                return None;
            },
        };
        let zapper_pubkey = match Option::<String>::read(r) {
            Some(v) => v,
            None => {
                return None;
            },
        };
        let recipient_pubkey = match String::read(r) {
            Some(v) => v,
            None => {
                return None;
            },
        };
        let recipient_metadata = match ProfileMetadata::read(r) {
            Some(v) => v,
            None => {
                return None;
            },
        };
        let amount_msats = match u64::read(r) {
            Some(v) => v,
            None => {
                return None;
            },
        };
        let created_at = match u64::read(r) {
            Some(v) => v,
            None => {
                return None;
            },
        };
        let note = match String::read(r) {
            Some(v) => v,
            None => {
                return None;
            },
        };
        let zapped_event_id = match Option::<String>::read(r) {
            Some(v) => v,
            None => {
                return None;
            },
        };
        Some(ZapReceipt { id, zapper_pubkey, recipient_pubkey, recipient_metadata, amount_msats, created_at, note, zapped_event_id })
    }
}

} // verus!
