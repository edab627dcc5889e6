//! Images attached to a snippet, and the edits a room applies to the stored list.
use vstd::prelude::*;

verus! {

/// One image attached to a snippet; `id` is the key used for removal.
#[derive(Debug, Clone, PartialEq, Eq)]
pub struct ImageData {
    pub id: String,
    pub data_url: String,
    pub width: u32,
    pub height: u32,
}

impl ImageData {
    /// A field-for-field copy.
    pub fn duplicate(&self) -> (r: ImageData)
        ensures
            r == *self,
    {
        ImageData {
            id: self.id.clone(),
            data_url: self.data_url.clone(),
            width: self.width,
            height: self.height,
        }
    }
}

/// Whether some image of `s` carries the key `id`.
pub open spec fn has_id(s: Seq<ImageData>, id: Seq<char>) -> bool {
    exists|i: int| 0 <= i < s.len() && (#[trigger] s[i]).id@ == id
}

/// The list after adding `img`: appended unless its key is already present.
pub open spec fn with_image(s: Seq<ImageData>, img: ImageData) -> Seq<ImageData> {
    if has_id(s, img.id@) {
        s
    } else {
        s.push(img)
    }
}

/// The list after removing every image keyed `id`, the others kept in order.
pub open spec fn without_image(s: Seq<ImageData>, id: Seq<char>) -> Seq<ImageData> {
    s.filter(keyed_otherwise(id))
}

/// The test that keeps an image whose key differs from `id`.
pub open spec fn keyed_otherwise(id: Seq<char>) -> spec_fn(ImageData) -> bool {
    |i: ImageData| i.id@ != id
}

/// Whether `imgs` holds an image keyed `id`.
pub fn contains_image(imgs: &Vec<ImageData>, id: &String) -> (r: bool)
    ensures
        r == has_id(imgs@, id@),
{
    let mut i: usize = 0;
    while i < imgs.len()
        invariant
            i <= imgs.len(),
            forall|j: int| 0 <= j < i ==> (#[trigger] imgs@[j]).id@ != id@,
        decreases imgs.len() - i,
    {
        if imgs[i].id == *id {
            return true;
        }
        i = i + 1;
    }
    false
}

/// Adds `img` at the end unless an image with the same key is already stored.
pub fn add_image(imgs: &mut Vec<ImageData>, img: ImageData)
    ensures
        final(imgs)@ == with_image(old(imgs)@, img),
{
    if !contains_image(imgs, &img.id) {
        imgs.push(img);
    }
}

/// Removes every image keyed `id`, keeping the order of the others.
pub fn remove_image(imgs: &mut Vec<ImageData>, id: &String)
    ensures
        final(imgs)@ == without_image(old(imgs)@, id@),
{
    let ghost orig = imgs@;
    let ghost mut k: int = 0;
    let mut i: usize = 0;
    while i < imgs.len()
        invariant
            0 <= i <= k <= orig.len(),
            imgs@.len() == i + (orig.len() - k),
            imgs@.take(i as int) == orig.take(k).filter(keyed_otherwise(id@)),
            imgs@.skip(i as int) == orig.skip(k),
        decreases imgs.len() - i,
    {
        proof {
            assert(orig.take(k + 1).drop_last() =~= orig.take(k));
            assert(imgs@[i as int] == orig[k]) by {
                assert(imgs@.skip(i as int)[0] == orig.skip(k)[0]);
            }
            assert(orig.take(k + 1).filter(keyed_otherwise(id@)) == if keyed_otherwise(id@)(orig[k]) {
                orig.take(k).filter(keyed_otherwise(id@)).push(orig[k])
            } else {
                orig.take(k).filter(keyed_otherwise(id@))
            }) by {
                reveal(Seq::filter);
            }
        }
        let ghost before = imgs@;
        proof {
            assert(orig.skip(k + 1) =~= orig.skip(k).drop_first());
        }
        if imgs[i].id == *id {
            imgs.remove(i);
            proof {
                assert(imgs@.skip(i as int) =~= before.skip(i as int).drop_first());
                assert(imgs@.take(i as int) =~= before.take(i as int));
                k = k + 1;
            }
        } else {
            proof {
                assert(imgs@.take(i + 1) =~= imgs@.take(i as int).push(imgs@[i as int]));
                assert(imgs@.skip(i + 1) =~= imgs@.skip(i as int).drop_first());
                k = k + 1;
            }
            i = i + 1;
        }
    }
    proof {
        assert(imgs@ =~= imgs@.take(i as int));
        assert(orig.take(k) =~= orig);
    }
}

/// Adding an image whose key is already stored leaves the list unchanged.
pub proof fn lemma_add_present_is_noop(s: Seq<ImageData>, img: ImageData)
    requires
        has_id(s, img.id@),
    ensures
        with_image(s, img) == s,
{
}

/// Removing a key after adding an image with that key leaves no image with
/// that key, and leaves exactly the other images of the list it started from.
pub proof fn lemma_remove_after_add(s: Seq<ImageData>, img: ImageData)
    ensures
        !has_id(without_image(with_image(s, img), img.id@), img.id@),
        without_image(with_image(s, img), img.id@) == without_image(s, img.id@),
{
    let t = without_image(with_image(s, img), img.id@);
    assert forall|i: int| 0 <= i < t.len() implies (#[trigger] t[i]).id@ != img.id@ by {
        with_image(s, img).lemma_filter_pred(keyed_otherwise(img.id@), i);
    }
    if !has_id(s, img.id@) {
        assert(s.push(img).drop_last() =~= s);
        reveal(Seq::filter);
    }
}

} // verus!
