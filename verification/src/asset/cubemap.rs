//! Decoding the six image files of a cube map into the layers of one texture.
use vstd::prelude::*;

use crate::asset::load::{decode_image, image_decoding, ColorType};

verus! {

/// The decoded faces of a cube map: every face is uploaded as one layer with
/// the width and height of the first face.
pub struct CubemapFaces {
    pub width: u32,
    pub height: u32,
    /// The RGBA bytes of each face, in the order of the files.
    pub faces: Vec<Vec<u8>>,
}

/// The decodings of `files`, in order, or the message of the first file that
/// does not decode.
pub open spec fn decode_all(files: Seq<Seq<u8>>) -> Result<Seq<(ColorType, Seq<u8>, u32, u32)>, Seq<char>>
    decreases files.len(),
{
    if files.len() == 0 {
        Ok(seq![])
    } else {
        match decode_all(files.drop_last()) {
            Err(m) => Err(m),
            Ok(ds) => match image_decoding(files.last()) {
                Err(m) => Err(m),
                Ok(d) => Ok(ds.push(d)),
            },
        }
    }
}

/// The views of the files.
pub open spec fn files_view(files: Seq<Vec<u8>>) -> Seq<Seq<u8>> {
    files.map_values(|f: Vec<u8>| f@)
}

/// The cube map made of six decoded faces (RGBA bytes, width, height): every
/// face becomes one layer, with the width and height of the first.
pub fn cubemap_from_faces(decoded: Vec<(Vec<u8>, u32, u32)>) -> (cubemap: CubemapFaces)
    requires
        decoded@.len() == 6,
    ensures
        cubemap.width == decoded@[0].1,
        cubemap.height == decoded@[0].2,
        cubemap.faces@.len() == 6,
        forall|i: int| 0 <= i < 6 ==> #[trigger] cubemap.faces@[i]@ == decoded@[i].0@,
{
    let width = decoded[0].1;
    let height = decoded[0].2;
    let ghost d = decoded@;
    let mut faces: Vec<Vec<u8>> = Vec::new();
    let mut rest = decoded;
    while rest.len() > 0
        invariant
            d.len() == 6,
            faces@.len() + rest@.len() == 6,
            forall|j: int| 0 <= j < faces@.len() ==> #[trigger] faces@[j]@ == d[j].0@,
            rest@ == d.skip(faces@.len() as int),
        decreases rest@.len(),
    {
        let face = rest.remove(0);
        faces.push(face.0);
        proof {
            assert(rest@ =~= d.skip(faces@.len() as int));
        }
    }
    CubemapFaces { width, height, faces }
}

/// Decodes the six faces of a cube map, in order. The first face that does not
/// decode makes the whole cube map fail with its message.
pub fn decode_cubemap_faces(files: &Vec<Vec<u8>>) -> (result: Result<CubemapFaces, String>)
    requires
        files@.len() == 6,
    ensures
        match decode_all(files_view(files@)) {
            Ok(ds) => result matches Ok(c) && {
                &&& c.width == ds[0].2
                &&& c.height == ds[0].3
                &&& c.faces@.len() == 6
                &&& forall|i: int| 0 <= i < 6 ==> #[trigger] c.faces@[i]@ == ds[i].1
            },
            Err(m) => result matches Err(e) && e@ == m,
        },
{
    let ghost all = files_view(files@);
    let mut decoded: Vec<(Vec<u8>, u32, u32)> = Vec::new();
    let mut i: usize = 0;
    while i < files.len()
        invariant
            i <= files@.len() == 6,
            all == files_view(files@),
            decode_all(all.take(i as int)) matches Ok(ds) && {
                &&& ds.len() == i
                &&& decoded@.len() == i
                &&& forall|j: int| 0 <= j < i ==> {
                    &&& #[trigger] decoded@[j].0@ == ds[j].1
                    &&& decoded@[j].1 == ds[j].2
                    &&& decoded@[j].2 == ds[j].3
                }
            },
        decreases files@.len() - i,
    {
        let ghost before = all.take(i as int);
        proof {
            assert(all.take(i + 1).drop_last() =~= before);
            assert(all.take(i + 1).last() == files@[i as int]@);
        }
        match decode_image(files[i].as_slice()) {
            Err(e) => {
                proof {
                    lemma_decode_all_prefix_err(all, i + 1);
                    assert(all.take(6) =~= all);
                }
                return Err(e);
            },
            Ok((_, rgba, w, h)) => {
                proof {
                    lemma_decode_all_len(before);
                }
                decoded.push((rgba, w, h));
            },
        }
        i = i + 1;
    }
    proof {
        assert(all.take(6) =~= all);
    }
    let ghost ds = decode_all(all)->Ok_0;
    let ghost d = decoded@;
    assert(decode_all(all.take(i as int)) == decode_all(all));
    assert(d[0].0@ == ds[0].1);
    let cubemap = cubemap_from_faces(decoded);
    assert forall|j: int| 0 <= j < 6 implies #[trigger] cubemap.faces@[j]@ == ds[j].1 by {
        assert(cubemap.faces@[j]@ == d[j].0@);
        assert(d[j].0@ == ds[j].1);
    }
    assert(d[0].1 == ds[0].2);
    Ok(cubemap)
}

proof fn lemma_decode_all_len(files: Seq<Seq<u8>>)
    ensures
        decode_all(files) matches Ok(ds) ==> ds.len() == files.len(),
    decreases files.len(),
{
    if files.len() > 0 {
        lemma_decode_all_len(files.drop_last());
    }
}

proof fn lemma_decode_all_prefix_err(files: Seq<Seq<u8>>, n: int)
    requires
        0 <= n <= files.len(),
        decode_all(files.take(n)) is Err,
    ensures
        decode_all(files) == decode_all(files.take(n)),
    decreases files.len(),
{
    if n < files.len() {
        assert(files.drop_last().take(n) =~= files.take(n));
        lemma_decode_all_prefix_err(files.drop_last(), n);
    } else {
        assert(files.take(n) =~= files);
    }
}

} // verus!
