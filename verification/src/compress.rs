//! The search for an export picture that is small enough.
use vstd::prelude::*;

use crate::codec::{decode_data_url_bytes, url_bytes, DataUrlError};

verus! {

/// A picture of at most this many bytes is taken at once.
pub const EXPORT_TARGET_MAX_BYTES: usize = 400_000;

/// Whether a picture of so many bytes is taken at once.
pub open spec fn small_enough(len: nat) -> bool {
    len <= EXPORT_TARGET_MAX_BYTES
}

/// How large, in pixels of the longer side, and how well, in percent of quality, the picture is
/// drawn at each try; none after the last try.
pub open spec fn size_step(n: nat) -> Option<(u32, u32)> {
    if n == 0 {
        Some((1600, 80))
    } else if n == 1 {
        Some((1400, 74))
    } else if n == 2 {
        Some((1200, 68))
    } else if n == 3 {
        Some((1000, 62))
    } else {
        None
    }
}

/// The smaller one of the best picture so far and a new one; the old one where both are equal.
pub open spec fn kept(best: Option<Seq<u8>>, bytes: Seq<u8>) -> Option<Seq<u8>> {
    match best {
        Some(current) if bytes.len() >= current.len() => best,
        _ => Some(bytes),
    }
}

/// The tries made and the smallest picture that was still too large.
pub struct ExportSearch {
    pub tries: usize,
    pub best: Option<Vec<u8>>,
}

impl ExportSearch {
    /// The bytes of the smallest picture so far.
    pub open spec fn best_bytes(&self) -> Option<Seq<u8>> {
        match self.best {
            Some(bytes) => Some(bytes@),
            None => None,
        }
    }

    /// Nothing tried yet.
    pub fn new() -> (s: Self)
        ensures
            s.tries == 0,
            s.best is None,
    {
        ExportSearch { tries: 0, best: None }
    }

    /// The size and quality of the next try.
    pub fn next_step(&self) -> (r: Option<(u32, u32)>)
        ensures
            r == size_step(self.tries as nat),
    {
        if self.tries == 0 {
            Some((1600, 80))
        } else if self.tries == 1 {
            Some((1400, 74))
        } else if self.tries == 2 {
            Some((1200, 68))
        } else if self.tries == 3 {
            Some((1000, 62))
        } else {
            None
        }
    }

    /// Judges a picture: gives it back where it is small enough, else keeps the smaller one of
    /// it and the best so far.
    pub fn consider(&mut self, bytes: Vec<u8>) -> (r: Option<Vec<u8>>)
        requires
            old(self).tries < usize::MAX,
        ensures
            final(self).tries == old(self).tries + 1,
            r is Some <==> small_enough(bytes@.len()),
            if bytes@.len() <= EXPORT_TARGET_MAX_BYTES {
                r == Some(bytes) && final(self).best == old(self).best
            } else {
                r is None && final(self).best_bytes() == kept(old(self).best_bytes(), bytes@)
            },
    {
        self.tries = self.tries + 1;
        if bytes.len() <= EXPORT_TARGET_MAX_BYTES {
            return Some(bytes);
        }
        let should_replace = match &self.best {
            Some(current) => bytes.len() < current.len(),
            None => true,
        };
        if should_replace {
            self.best = Some(bytes);
        }
        None
    }

    /// Judges a picture drawn as a data URL.
    pub fn consider_url(&mut self, data_url: &str) -> (r: Result<Option<Vec<u8>>, DataUrlError>)
        requires
            old(self).tries < usize::MAX,
        ensures
            match url_bytes(data_url@) {
                Ok(bytes) => {
                    &&& final(self).tries == old(self).tries + 1
                    &&& if bytes.len() <= EXPORT_TARGET_MAX_BYTES {
                        r matches Ok(Some(v)) && v@ == bytes && final(self).best
                            == old(self).best
                    } else {
                        r == Ok::<Option<Vec<u8>>, DataUrlError>(None)
                            && final(self).best_bytes() == kept(old(self).best_bytes(), bytes)
                    }
                },
                Err(e) => r == Err::<Option<Vec<u8>>, DataUrlError>(e) && *final(self) == *old(
                    self,
                ),
            },
    {
        match decode_data_url_bytes(data_url) {
            Ok(bytes) => Ok(self.consider(bytes)),
            Err(e) => Err(e),
        }
    }

    /// The picture to use once every try was too large: the smallest, if any was drawn.
    pub fn finish(self) -> (r: Option<Vec<u8>>)
        ensures
            r == self.best,
    {
        self.best
    }
}

/// The message where no picture was drawn at all.
pub fn no_picture_message() -> (s: &'static str)
    ensures
        s@ == "failed to compress export image"@,
{
    "failed to compress export image"
}

// ---------------------------------------------------------------------------
// Laws
// ---------------------------------------------------------------------------

/// What is kept after a row of pictures.
pub open spec fn kept_of(pictures: Seq<Seq<u8>>) -> Option<Seq<u8>>
    decreases pictures.len(),
{
    if pictures.len() == 0 {
        None
    } else {
        kept(kept_of(pictures.drop_last()), pictures.last())
    }
}

/// Of a row of pictures the search keeps one of them, none is smaller, and those before it are
/// larger.
pub proof fn search_keeps_the_smallest(pictures: Seq<Seq<u8>>)
    requires
        pictures.len() > 0,
    ensures
        exists|i: int|
            0 <= i < pictures.len() && kept_of(pictures) == Some(pictures[i]) && (forall|j: int|
                0 <= j < pictures.len() ==> pictures[i].len() <= (#[trigger] pictures[j]).len())
                && (forall|j: int| 0 <= j < i ==> pictures[i].len() < (#[trigger] pictures[j]).len()),
    decreases pictures.len(),
{
    let n = pictures.len() - 1;
    let head = pictures.drop_last();
    if n > 0 {
        search_keeps_the_smallest(head);
        let i = choose|i: int|
            0 <= i < head.len() && kept_of(head) == Some(head[i]) && (forall|j: int|
                0 <= j < head.len() ==> head[i].len() <= (#[trigger] head[j]).len()) && (forall|
                j: int,
            |
                0 <= j < i ==> head[i].len() < (#[trigger] head[j]).len());
        assert forall|j: int| 0 <= j < n implies #[trigger] pictures[j] == head[j] by {}
        if pictures[n].len() >= head[i].len() {
            assert(kept_of(pictures) == Some(pictures[i]));
        } else {
            assert(kept_of(pictures) == Some(pictures[n]));
        }
    } else {
        assert(kept_of(head) is None);
        assert(kept_of(pictures) == Some(pictures[0]));
    }
}

/// There are four tries, and each draws the picture 200 pixels smaller and at six percent less
/// quality than the one before, from 1600 pixels and 80 percent down.
pub proof fn tries_get_smaller(n: nat)
    ensures
        size_step(n) is Some <==> n < 4,
        size_step(n) matches Some((side, quality)) ==> side == 1600 - 200 * n && quality == 80 - 6
            * n,
{
}

/// Pictures that come in two rows give what the better one of both rows gives, the first row's
/// where they are equal.
pub proof fn rows_of_pictures_compete(a: Seq<Seq<u8>>, b: Seq<Seq<u8>>)
    ensures
        kept_of(b) is None ==> kept_of(a + b) == kept_of(a),
        kept_of(b) matches Some(bytes) ==> kept_of(a + b) == kept(kept_of(a), bytes),
    decreases b.len(),
{
    if b.len() == 0 {
        assert(a + b =~= a);
    } else {
        assert((a + b).drop_last() =~= a + b.drop_last());
        rows_of_pictures_compete(a, b.drop_last());
    }
}

/// Pictures of up to 400 000 bytes are small enough, and no larger ones; a smaller picture than
/// one that is small enough is small enough.
pub proof fn small_pictures_are_taken(len: nat, smaller: nat)
    requires
        smaller <= len,
    ensures
        small_enough(len) ==> small_enough(smaller),
        smaller <= 400_000 ==> small_enough(smaller),
        len > 400_000 ==> !small_enough(len),
{
}

} // verus!
