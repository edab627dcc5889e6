//! The stored snippet as the rooms see it, and how a new one is made.
use vstd::prelude::*;
use crate::image::{ImageData, with_image, add_image, has_id};

verus! {

/// A request to store a new snippet.
#[derive(Debug, Clone, PartialEq, Eq)]
pub struct CreateRequest {
    pub slug: Option<String>,
    pub content: String,
    pub language: Option<String>,
    pub images: Option<Vec<ImageData>>,
}

/// The language of a snippet whose request names none.
pub const DEFAULT_LANGUAGE: &'static str = "javascript";

/// How long a snippet stays live, in milliseconds.
pub const TTL_MILLIS: i64 = 86400000;

/// A stored snippet. Times are milliseconds since the Unix epoch.
#[derive(Debug, Clone, PartialEq, Eq)]
pub struct Snippet {
    pub slug: String,
    pub content: String,
    pub language: String,
    pub images: Vec<ImageData>,
    pub created_at: i64,
    pub expires_at: i64,
}

/// No two images of `s` share a key.
pub open spec fn ids_unique(s: Seq<ImageData>) -> bool {
    forall|i: int, j: int|
        0 <= i < j < s.len() ==> (#[trigger] s[i]).id@ != (#[trigger] s[j]).id@
}

/// The images of `s` added one by one, in order: later images whose key
/// was already seen are left out.
pub open spec fn collected(s: Seq<ImageData>) -> Seq<ImageData>
    decreases s.len(),
{
    if s.len() == 0 {
        s
    } else {
        with_image(collected(s.drop_last()), s.last())
    }
}

/// Adding an image keeps the keys of a list distinct.
pub proof fn lemma_with_image_keeps_ids_unique(s: Seq<ImageData>, img: ImageData)
    requires
        ids_unique(s),
    ensures
        ids_unique(with_image(s, img)),
{
    if !has_id(s, img.id@) {
        let t = s.push(img);
        assert forall|i: int, j: int| 0 <= i < j < t.len() implies (#[trigger] t[i]).id@
            != (#[trigger] t[j]).id@ by {
            if j == s.len() {
                assert(t[i] == s[i]);
            }
        }
    }
}

impl Snippet {
    /// It expires after it was made, and its images have distinct keys.
    pub open spec fn wf(&self) -> bool {
        &&& self.created_at < self.expires_at
        &&& ids_unique(self.images@)
    }

    /// Whether the snippet is still live at time `now`.
    pub fn is_live(&self, now: i64) -> (r: bool)
        ensures
            r == (now < self.expires_at),
    {
        now < self.expires_at
    }
}

/// The snippet stored for `req` under `slug` at time `now`: the requested
/// language or the default one, the requested images without repeated keys,
/// live for `TTL_MILLIS`.
pub fn new_snippet(slug: String, req: CreateRequest, now: i64) -> (r: Snippet)
    requires
        now <= i64::MAX - TTL_MILLIS,
    ensures
        r.wf(),
        r.slug == slug,
        r.content == req.content,
        r.language@ == match req.language {
            Some(l) => l@,
            None => DEFAULT_LANGUAGE@,
        },
        r.images@ == match req.images {
            Some(v) => collected(v@),
            None => Seq::empty(),
        },
        r.created_at == now,
        r.expires_at == now + TTL_MILLIS,
{
    let language = match req.language {
        Some(l) => l,
        None => DEFAULT_LANGUAGE.to_owned(),
    };
    let mut images: Vec<ImageData> = Vec::new();
    match &req.images {
        Some(v) => {
            let mut i: usize = 0;
            while i < v.len()
                invariant
                    i <= v.len(),
                    images@ == collected(v@.take(i as int)),
                    ids_unique(images@),
                decreases v.len() - i,
            {
                proof {
                    assert(v@.take(i + 1).drop_last() =~= v@.take(i as int));
                    lemma_with_image_keeps_ids_unique(images@, v@[i as int]);
                }
                add_image(&mut images, v[i].duplicate());
                i = i + 1;
            }
            proof {
                assert(v@.take(i as int) =~= v@);
            }
        },
        None => {},
    }
    Snippet {
        slug,
        content: req.content,
        language,
        images,
        created_at: now,
        expires_at: now + TTL_MILLIS,
    }
}

} // verus!
