//! One recording window: whether it is open, and the references gathered in it.

use vstd::prelude::*;
use crate::error::SessionError;
use crate::text::{after_last, find_last, spells, to_chars};

verus! {

/// The number of references a session may hold and still take more.
pub const MAX_IMAGES_PER_SECTION: usize = 500;

/// A file that came with a message.
#[derive(Clone, Debug, PartialEq, Eq)]
pub struct Attachment {
    pub filename: String,
    pub url: String,
}

/// What an [`Attachment`] says: its file name and where the file is.
pub struct AttachmentView {
    pub filename: Seq<char>,
    pub url: Seq<char>,
}

impl View for Attachment {
    type V = AttachmentView;

    open spec fn view(&self) -> AttachmentView {
        AttachmentView { filename: self.filename@, url: self.url@ }
    }
}

/// What each of a row of attachments says.
pub open spec fn attachment_views(attachments: Seq<Attachment>) -> Seq<AttachmentView> {
    attachments.map_values(|a: Attachment| a@)
}

/// What each of a row of strings spells.
pub open spec fn texts(strings: Seq<String>) -> Seq<Seq<char>> {
    strings.map_values(|s: String| s@)
}

/// The extension of a file name: what follows its last dot, or the whole
/// name where it has no dot.
pub open spec fn extension_of(filename: Seq<char>) -> Seq<char> {
    after_last(filename, '.')
}

/// Whether `extension` is one by which an image is known. Letters count as
/// they are written: `PNG` is not `png`.
pub open spec fn is_image_extension(extension: Seq<char>) -> bool {
    ||| extension == "jpg"@
    ||| extension == "jpeg"@
    ||| extension == "png"@
    ||| extension == "gif"@
    ||| extension == "webp"@
    ||| extension == "bmp"@
    ||| extension == "tiff"@
}

/// Whether a file of this name counts as an image.
pub open spec fn is_image_name(filename: Seq<char>) -> bool {
    is_image_extension(extension_of(filename))
}

/// Tells whether a file of this name counts as an image.
pub fn has_image_extension(filename: &str) -> (r: bool)
    ensures
        r == is_image_name(filename@),
{
    let chars = to_chars(filename);
    let start: usize = match find_last(&chars, chars.len(), '.') {
        Some(dot) => dot + 1,
        None => 0,
    };
    let end: usize = chars.len();
    assert(chars@.take(end as int) =~= chars@);
    assert(chars@.subrange(start as int, end as int) =~= extension_of(filename@));
    spells(&chars, start, end, "jpg") || spells(&chars, start, end, "jpeg") || spells(
        &chars,
        start,
        end,
        "png",
    ) || spells(&chars, start, end, "gif") || spells(&chars, start, end, "webp") || spells(
        &chars,
        start,
        end,
        "bmp",
    ) || spells(&chars, start, end, "tiff")
}

/// The references of those attachments that count as images, in the order
/// of the attachments.
pub open spec fn image_urls(attachments: Seq<AttachmentView>) -> Seq<Seq<char>> {
    attachments.filter(|a: AttachmentView| is_image_name(a.filename)).map_values(
        |a: AttachmentView| a.url,
    )
}

/// One more attachment adds its reference if it is an image, and nothing
/// otherwise.
pub proof fn lemma_image_urls_push(attachments: Seq<AttachmentView>, last: AttachmentView)
    ensures
        image_urls(attachments.push(last)) == if is_image_name(last.filename) {
            image_urls(attachments).push(last.url)
        } else {
            image_urls(attachments)
        },
{
    reveal(Seq::filter);
    assert(attachments.push(last).drop_last() =~= attachments);
    if is_image_name(last.filename) {
        assert(image_urls(attachments.push(last)) =~= image_urls(attachments).push(last.url));
    }
}

/// No attachments, no references.
pub proof fn lemma_image_urls_empty()
    ensures
        image_urls(Seq::empty()) == Seq::<Seq<char>>::empty(),
{
    reveal(Seq::filter);
    assert(image_urls(Seq::empty()) =~= Seq::<Seq<char>>::empty());
}

/// The state of a session: whether it takes references, and those it holds,
/// oldest first.
pub struct SessionState {
    pub listening: bool,
    pub images: Seq<Seq<char>>,
}

impl SessionState {
    /// A session as it is born: not listening, holding nothing.
    pub open spec fn fresh() -> SessionState {
        SessionState { listening: false, images: Seq::empty() }
    }

    /// A session holds references only if it listens: it takes them only
    /// while listening, and is gone once it stops.
    pub open spec fn well_formed(self) -> bool {
        !self.listening ==> self.images.len() == 0
    }

    /// Whether the session holds so much that it takes no more.
    pub open spec fn is_full(self) -> bool {
        self.images.len() > MAX_IMAGES_PER_SECTION
    }

    /// The session once it was told to listen.
    pub open spec fn begun(self) -> SessionState {
        SessionState { listening: true, images: self.images }
    }

    /// The session once a message with these attachments reached it: a
    /// listening session that is not full takes the references of all the
    /// images among them; any other session stays as it is.
    pub open spec fn offered(self, attachments: Seq<AttachmentView>) -> SessionState {
        if self.listening && !self.is_full() {
            SessionState { listening: true, images: self.images + image_urls(attachments) }
        } else {
            self
        }
    }
}

/// The session of one user in one channel.
pub struct ImageList {
    pub images: Vec<String>,
    pub listening: bool,
}

impl View for ImageList {
    type V = SessionState;

    open spec fn view(&self) -> SessionState {
        SessionState { listening: self.listening, images: texts(self.images@) }
    }
}

impl ImageList {
    /// A session as it is born.
    pub fn new() -> (session: Self)
        ensures
            session@ == SessionState::fresh(),
    {
        let session = ImageList { images: Vec::new(), listening: false };
        assert(session@.images =~= Seq::empty());
        session
    }

    /// Starts listening. A session that listens already stays as it is, and
    /// the request is turned away.
    pub fn begin(&mut self) -> (r: Result<(), SessionError>)
        ensures
            final(self)@ == old(self)@.begun(),
            r == if old(self)@.listening {
                Err::<(), SessionError>(SessionError::RedundantStateTransition { listening: true })
            } else {
                Ok::<(), SessionError>(())
            },
    {
        if self.listening {
            return Err(SessionError::RedundantStateTransition { listening: true });
        }
        self.listening = true;
        Ok(())
    }

    /// Offers the attachments of one message to the session. A listening
    /// session takes the references of the images among them, unless it is
    /// full: then it takes none and says so. A session that does not listen
    /// passes the message over.
    pub fn offer(&mut self, attachments: &Vec<Attachment>) -> (r: Result<(), SessionError>)
        ensures
            final(self)@ == old(self)@.offered(attachment_views(attachments@)),
            r == if old(self)@.listening && old(self)@.is_full() {
                Err::<(), SessionError>(SessionError::CapacityExceeded)
            } else {
                Ok::<(), SessionError>(())
            },
    {
        if !self.listening {
            return Ok(());
        }
        if self.images.len() > MAX_IMAGES_PER_SECTION {
            return Err(SessionError::CapacityExceeded);
        }
        let ghost offered = attachment_views(attachments@);
        proof {
            lemma_image_urls_empty();
            assert(offered.take(0) =~= Seq::empty());
        }
        let mut i: usize = 0;
        while i < attachments.len()
            invariant
                i <= attachments.len(),
                offered == attachment_views(attachments@),
                self.listening,
                self@.images == old(self)@.images + image_urls(offered.take(i as int)),
            decreases attachments.len() - i,
        {
            let attachment = &attachments[i];
            proof {
                lemma_image_urls_push(offered.take(i as int), attachment@);
                assert(offered.take(i as int).push(attachment@) =~= offered.take(i + 1));
            }
            if has_image_extension(attachment.filename.as_str()) {
                let ghost before = self.images@;
                self.images.push(attachment.url.clone());
                assert(texts(self.images@) =~= texts(before).push(attachment.url@));
            }
            i += 1;
        }
        assert(offered.take(i as int) =~= offered);
        Ok(())
    }
}

} // verus!
