//! From a row of references to the file that is handed to the user.

use vstd::prelude::*;
use crate::session::{texts, Attachment, AttachmentView, attachment_views};
use crate::store::SessionKey;

verus! {

/// The lines set one after the other, a carriage return and a line feed
/// between each two. No lines give the empty text.
pub open spec fn join_lines(lines: Seq<Seq<char>>) -> Seq<char>
    decreases lines.len(),
{
    if lines.len() == 0 {
        Seq::empty()
    } else if lines.len() == 1 {
        lines[0]
    } else {
        join_lines(lines.drop_last()) + "\r\n"@ + lines.last()
    }
}

/// Writes the references out, one to a line.
pub fn export(references: &Vec<String>) -> (blob: String)
    ensures
        blob@ == join_lines(texts(references@)),
{
    let mut blob = String::new();
    let ghost lines = texts(references@);
    let mut i: usize = 0;
    while i < references.len()
        invariant
            i <= references.len(),
            lines == texts(references@),
            blob@ == join_lines(lines.take(i as int)),
        decreases references.len() - i,
    {
        assert(lines.take(i + 1).drop_last() =~= lines.take(i as int));
        if i > 0 {
            blob.append("\r\n");
        }
        blob.append(references[i].as_str());
        assert(blob@ =~= join_lines(lines.take(i + 1)));
        i += 1;
    }
    assert(lines.take(i as int) =~= lines);
    blob
}

/// A file to hand to the user, and the words that go with it.
#[derive(Clone, Debug, PartialEq, Eq)]
pub struct Artifact {
    pub name: String,
    pub content: String,
    pub caption: String,
}

/// What an [`Artifact`] holds.
pub struct ArtifactView {
    pub name: Seq<char>,
    pub content: Seq<char>,
    pub caption: Seq<char>,
}

impl View for Artifact {
    type V = ArtifactView;

    open spec fn view(&self) -> ArtifactView {
        ArtifactView { name: self.name@, content: self.content@, caption: self.caption@ }
    }
}

/// The name of the file made for the session of `key`.
pub open spec fn artifact_name(key: SessionKey) -> Seq<char> {
    key.label() + ".txt"@
}

/// The file that ends a session: the references it gathered, oldest first.
pub open spec fn collected(key: SessionKey, images: Seq<Seq<char>>) -> ArtifactView {
    ArtifactView {
        name: artifact_name(key),
        content: join_lines(images),
        caption: "Here are all the images you sent"@,
    }
}

/// The references of all the attachments, images or not, in their order.
pub open spec fn all_urls(attachments: Seq<AttachmentView>) -> Seq<Seq<char>> {
    attachments.map_values(|a: AttachmentView| a.url)
}

/// The file that answers an extraction: the references of all that is
/// attached to the message referred to.
pub open spec fn extracted(key: SessionKey, attachments: Seq<AttachmentView>) -> ArtifactView {
    ArtifactView {
        name: artifact_name(key),
        content: join_lines(all_urls(attachments)),
        caption: "All images in that message"@,
    }
}

impl Artifact {
    fn name_for(key: SessionKey) -> (name: String)
        ensures
            name@ == artifact_name(key),
    {
        let mut name = key.label_text();
        name.append(".txt");
        name
    }

    /// Makes the file that ends the session of `key`.
    pub fn collected(key: SessionKey, images: &Vec<String>) -> (artifact: Artifact)
        ensures
            artifact@ == collected(key, texts(images@)),
    {
        Artifact {
            name: Artifact::name_for(key),
            content: export(images),
            caption: String::from_str("Here are all the images you sent"),
        }
    }

    /// Makes the file that answers an extraction asked for under `key`.
    pub fn extracted(key: SessionKey, attachments: &Vec<Attachment>) -> (artifact: Artifact)
        ensures
            artifact@ == extracted(key, attachment_views(attachments@)),
    {
        let mut urls: Vec<String> = Vec::new();
        let mut i: usize = 0;
        while i < attachments.len()
            invariant
                i <= attachments.len(),
                texts(urls@) == all_urls(attachment_views(attachments@).take(i as int)),
            decreases attachments.len() - i,
        {
            let ghost before = urls@;
            let ghost offered = attachment_views(attachments@);
            urls.push(attachments[i].url.clone());
            assert(texts(urls@) =~= texts(before).push(attachments[i as int].url@));
            assert(offered.take(i + 1) =~= offered.take(i as int).push(attachments[i as int]@));
            assert(all_urls(offered.take(i + 1)) =~= all_urls(offered.take(i as int)).push(
                attachments[i as int].url@,
            ));
            i += 1;
        }
        assert(attachment_views(attachments@).take(i as int) =~= attachment_views(attachments@));
        Artifact {
            name: Artifact::name_for(key),
            content: export(&urls),
            caption: String::from_str("All images in that message"),
        }
    }
}

} // verus!
