//! Telling image files apart by their first bytes, choosing what to do with
//! the files given to decrypt, naming their outputs, and finding the images
//! beside one in its directory.
use crate::text::{chars_of, push_char, push_str, string_of};
use vstd::prelude::*;

verus! {

/// What an image file holds, by its first bytes.
#[derive(Debug, Clone, Copy, PartialEq, Eq)]
pub enum ImageFormat {
    /// A PNG or JPEG image as it is.
    Plain,
    /// An image encrypted with a password-derived key.
    Encrypterator,
    /// An image encrypted in the game's own format.
    Rpgmvp,
}

/// The first bytes of a PNG file.
pub open spec fn png_magic() -> Seq<u8> {
    seq![0x89u8, 0x50, 0x4e, 0x47, 0x0d, 0x0a, 0x1a, 0x0a]
}

/// The first bytes of a JPEG file.
pub open spec fn jpeg_magic() -> Seq<u8> {
    seq![0xffu8, 0xd8, 0xff]
}

/// Whether `s` begins with `prefix`.
pub open spec fn starts_with(s: Seq<u8>, prefix: Seq<u8>) -> bool {
    s.len() >= prefix.len() && s.subrange(0, prefix.len() as int) == prefix
}

/// What a file whose first 32 bytes are `magic` holds: a plain image by its
/// signature, an encrypted one by the encrypter's magic, the game's format
/// otherwise.
pub open spec fn image_format(magic: Seq<u8>) -> ImageFormat {
    if starts_with(magic, png_magic()) || starts_with(magic, jpeg_magic()) {
        ImageFormat::Plain
    } else if magic == crate::encrypterator::magic() {
        ImageFormat::Encrypterator
    } else {
        ImageFormat::Rpgmvp
    }
}

/// Whether `a[0..n]` equals `b`.
fn prefix_is(a: &[u8; 32], b: &[u8], n: usize) -> (r: bool)
    requires
        n == b@.len(),
        n <= 32,
    ensures
        r == (a@.subrange(0, n as int) == b@),
{
    let mut i: usize = 0;
    while i < n
        invariant
            i <= n <= 32,
            n == b@.len(),
            forall|j: int| 0 <= j < i ==> a@[j] == b@[j],
        decreases n - i,
    {
        if a[i] != b[i] {
            assert(a@.subrange(0, n as int)[i as int] != b@[i as int]);
            return false;
        }
        i = i + 1;
    }
    assert(a@.subrange(0, n as int) =~= b@);
    true
}

/// Tells what an image file holds from its first 32 bytes.
pub fn classify_image(magic: &[u8; 32]) -> (r: ImageFormat)
    ensures
        r == image_format(magic@),
{
    let png: [u8; 8] = [0x89, 0x50, 0x4e, 0x47, 0x0d, 0x0a, 0x1a, 0x0a];
    let jpeg: [u8; 3] = [0xff, 0xd8, 0xff];
    assert(png@ =~= png_magic());
    assert(jpeg@ =~= jpeg_magic());
    if prefix_is(magic, &png, 8) || prefix_is(magic, &jpeg, 3) {
        return ImageFormat::Plain;
    }
    let enc = crate::encrypterator::magic_array();
    if prefix_is(magic, &enc, 32) {
        assert(magic@.subrange(0, 32) =~= magic@);
        ImageFormat::Encrypterator
    } else {
        assert(magic@.subrange(0, 32) =~= magic@);
        ImageFormat::Rpgmvp
    }
}

/// How a decryption run is carried out.
#[derive(Debug, Clone, Copy, PartialEq, Eq)]
pub enum DecryptMode {
    /// One input, decrypted to the output path itself.
    Scalar,
    /// Each input decrypted into the output directory.
    Vector,
}

/// Why a decryption run cannot start.
#[derive(Debug, Clone, Copy, PartialEq, Eq)]
pub enum DecryptPlanError {
    /// No input was given.
    NoInput,
    /// Several inputs were given, and the output is not a directory.
    OutputNotDirectory,
}

/// How to decrypt `input_count` files to an output that is or is not an
/// existing directory, after the manner of `mv`.
pub open spec fn decrypt_plan(input_count: nat, output_is_dir: bool) -> Result<
    DecryptMode,
    DecryptPlanError,
> {
    if input_count == 0 {
        Err(DecryptPlanError::NoInput)
    } else if output_is_dir {
        Ok(DecryptMode::Vector)
    } else if input_count == 1 {
        Ok(DecryptMode::Scalar)
    } else {
        Err(DecryptPlanError::OutputNotDirectory)
    }
}

/// Chooses how to decrypt the inputs.
pub fn plan_decrypt(input_count: usize, output_is_dir: bool) -> (r: Result<
    DecryptMode,
    DecryptPlanError,
>)
    ensures
        r == decrypt_plan(input_count as nat, output_is_dir),
{
    if input_count == 0 {
        Err(DecryptPlanError::NoInput)
    } else if output_is_dir {
        Ok(DecryptMode::Vector)
    } else if input_count == 1 {
        Ok(DecryptMode::Scalar)
    } else {
        Err(DecryptPlanError::OutputNotDirectory)
    }
}

/// The index of the last `.` of `name` after its first character: the start
/// of its extension.
pub open spec fn extension_dot(name: Seq<char>) -> Option<int>
    decreases name.len(),
{
    if name.len() <= 1 {
        None
    } else if name.last() == '.' {
        Some(name.len() - 1)
    } else {
        extension_dot(name.drop_last())
    }
}

/// A file name with its extension, if any, replaced by `png`: a name that only
/// begins with a `.` has no extension.
pub open spec fn png_name(name: Seq<char>) -> Seq<char> {
    match extension_dot(name) {
        Some(d) => name.subrange(0, d) + ".png"@,
        None => name + ".png"@,
    }
}

/// Names the decrypted file of an encrypted one: its name with the `png`
/// extension.
pub fn png_file_name(name: &str) -> (r: String)
    ensures
        r@ == png_name(name@),
{
    let chars = chars_of(name);
    let mut i: usize = chars.len();
    assert(chars@.subrange(0, i as int) =~= chars@);
    while i > 1
        invariant
            i <= chars@.len(),
            chars@ == name@,
            extension_dot(name@) == extension_dot(chars@.subrange(0, i as int)),
        decreases i,
    {
        let ghost prefix = chars@.subrange(0, i as int);
        assert(prefix.drop_last() =~= chars@.subrange(0, i - 1));
        if chars[i - 1] == '.' {
            let mut r = string_of(&chars, 0, i - 1);
            push_str(&mut r, ".png");
            return r;
        }
        i = i - 1;
    }
    let mut r = crate::text::owned(name);
    push_str(&mut r, ".png");
    r
}

/// Whether `a` comes before `b` in byte order.
pub open spec fn bytes_less(a: Seq<u8>, b: Seq<u8>) -> bool
    decreases a.len(),
{
    if a.len() == 0 {
        b.len() > 0
    } else if b.len() == 0 {
        false
    } else if a[0] != b[0] {
        a[0] < b[0]
    } else {
        bytes_less(a.drop_first(), b.drop_first())
    }
}

/// Compares two names in byte order.
pub fn name_less(a: &Vec<u8>, b: &Vec<u8>) -> (r: bool)
    ensures
        r == bytes_less(a@, b@),
{
    let mut i: usize = 0;
    assert(a@.subrange(0, a@.len() as int) =~= a@);
    assert(b@.subrange(0, b@.len() as int) =~= b@);
    while i < a.len() && i < b.len()
        invariant
            i <= a@.len(),
            i <= b@.len(),
            bytes_less(a@, b@) == bytes_less(
                a@.subrange(i as int, a@.len() as int),
                b@.subrange(i as int, b@.len() as int),
            ),
        decreases a@.len() - i,
    {
        let ghost ra = a@.subrange(i as int, a@.len() as int);
        let ghost rb = b@.subrange(i as int, b@.len() as int);
        assert(ra.drop_first() =~= a@.subrange(i + 1, a@.len() as int));
        assert(rb.drop_first() =~= b@.subrange(i + 1, b@.len() as int));
        assert(ra[0] == a@[i as int] && rb[0] == b@[i as int]);
        if a[i] != b[i] {
            return a[i] < b[i];
        }
        i = i + 1;
    }
    i == a.len() && i < b.len()
}

/// Whether `names[p]` is the image before `current` among the first `n`
/// names: the greatest name that sorts before `current`, and the first of
/// the names equal to it.
pub open spec fn is_previous(current: Seq<u8>, names: Seq<Seq<u8>>, n: int, p: int) -> bool {
    &&& 0 <= p < n
    &&& bytes_less(names[p], current)
    &&& forall|j: int|
        0 <= j < n && bytes_less(#[trigger] names[j], current) ==> !bytes_less(names[p], names[j])
    &&& forall|j: int|
        0 <= j < p && bytes_less(#[trigger] names[j], current) ==> bytes_less(names[j], names[p])
}

/// Whether `names[q]` is the image after `current` among the first `n`
/// names: the least name that sorts after `current`, and the first of the
/// names equal to it.
pub open spec fn is_next(current: Seq<u8>, names: Seq<Seq<u8>>, n: int, q: int) -> bool {
    &&& 0 <= q < n
    &&& bytes_less(current, names[q])
    &&& forall|j: int|
        0 <= j < n && bytes_less(current, #[trigger] names[j]) ==> !bytes_less(names[j], names[q])
    &&& forall|j: int|
        0 <= j < q && bytes_less(current, #[trigger] names[j]) ==> bytes_less(names[q], names[j])
}

/// The neighbours found among the first `n` names, as `find_neighbors`
/// states them.
pub open spec fn neighbors_found(
    current: Seq<u8>,
    names: Seq<Seq<u8>>,
    n: int,
    r: (Option<usize>, Option<usize>),
) -> bool {
    &&& match r.0 {
        Some(p) => is_previous(current, names, n, p as int),
        None => forall|j: int| 0 <= j < n ==> !bytes_less(#[trigger] names[j], current),
    }
    &&& match r.1 {
        Some(q) => is_next(current, names, n, q as int),
        None => forall|j: int| 0 <= j < n ==> !bytes_less(current, #[trigger] names[j]),
    }
}

/// The images beside `current` in its directory, whose entries are named
/// `names`: the index of the greatest name before it and of the least name
/// after it, the first of equal names in each case; `None` where there is
/// no such name.
pub fn find_neighbors(current: &Vec<u8>, names: &Vec<Vec<u8>>) -> (r: (Option<usize>, Option<usize>))
    ensures
        neighbors_found(current@, names@.map_values(|v: Vec<u8>| v@), names@.len() as int, r),
{
    let ghost views = names@.map_values(|v: Vec<u8>| v@);
    let ghost cur = current@;
    let mut prev: Option<usize> = None;
    let mut next: Option<usize> = None;
    let mut i: usize = 0;
    while i < names.len()
        invariant
            i <= names@.len(),
            cur == current@,
            views == names@.map_values(|v: Vec<u8>| v@),
            views.len() == names@.len(),
            neighbors_found(cur, views, i as int, (prev, next)),
        decreases names@.len() - i,
    {
        let name = &names[i];
        assert(views[i as int] == name@);
        let ghost nv = name@;
        let same = name.len() == current.len() && !name_less(name, current) && !name_less(current, name);
        proof {
            lemma_bytes_order(nv, cur);
            lemma_bytes_irreflexive(cur);
            lemma_bytes_asymmetric(nv, cur);
        }
        if same {
        } else if name_less(name, current) && match prev {
            Some(p) => name_less(&names[p], name),
            None => true,
        } {
            proof {
                assert forall|j: int|
                    0 <= j < i + 1 && bytes_less(#[trigger] views[j], cur) implies !bytes_less(
                    nv,
                    views[j],
                ) by {
                    if j < i {
                        let p = prev->0 as int;
                        assert(views[p] == names@[p]@);
                        if bytes_less(nv, views[j]) {
                            lemma_bytes_transitive(views[p], nv, views[j]);
                        }
                    } else {
                        lemma_bytes_irreflexive(nv);
                    }
                }
                assert forall|j: int|
                    0 <= j < i && bytes_less(#[trigger] views[j], cur) implies bytes_less(
                    views[j],
                    nv,
                ) by {
                    let p = prev->0 as int;
                    assert(views[p] == names@[p]@);
                    lemma_bytes_total(views[j], views[p]);
                    if bytes_less(views[j], views[p]) {
                        lemma_bytes_transitive(views[j], views[p], nv);
                    }
                }
            }
            prev = Some(i);
        } else if name_less(current, name) && match next {
            Some(q) => name_less(name, &names[q]),
            None => true,
        } {
            proof {
                assert forall|j: int|
                    0 <= j < i + 1 && bytes_less(cur, #[trigger] views[j]) implies !bytes_less(
                    views[j],
                    nv,
                ) by {
                    if j < i {
                        let q = next->0 as int;
                        assert(views[q] == names@[q]@);
                        if bytes_less(views[j], nv) {
                            lemma_bytes_transitive(views[j], nv, views[q]);
                        }
                    } else {
                        lemma_bytes_irreflexive(nv);
                    }
                }
                assert forall|j: int|
                    0 <= j < i && bytes_less(cur, #[trigger] views[j]) implies bytes_less(
                    nv,
                    views[j],
                ) by {
                    let q = next->0 as int;
                    assert(views[q] == names@[q]@);
                    lemma_bytes_total(views[j], views[q]);
                    if bytes_less(views[q], views[j]) {
                        lemma_bytes_transitive(nv, views[q], views[j]);
                    }
                }
            }
            next = Some(i);
        } else {
            proof {
                if bytes_less(nv, cur) {
                    let p = prev->0 as int;
                    assert(views[p] == names@[p]@);
                    lemma_bytes_total(views[p], nv);
                } else if bytes_less(cur, nv) {
                    let q = next->0 as int;
                    assert(views[q] == names@[q]@);
                    lemma_bytes_total(views[q], nv);
                }
            }
        }
        i = i + 1;
    }
    (prev, next)
}

/// Two byte strings of one length, neither before the other, are equal.
proof fn lemma_bytes_order(a: Seq<u8>, b: Seq<u8>)
    ensures
        (a.len() == b.len() && !bytes_less(a, b) && !bytes_less(b, a)) == (a == b),
    decreases a.len(),
{
    if a.len() > 0 && b.len() > 0 {
        lemma_bytes_order(a.drop_first(), b.drop_first());
        if a.len() == b.len() && a[0] == b[0] && a.drop_first() == b.drop_first() {
            assert(a =~= seq![a[0]] + a.drop_first());
            assert(b =~= seq![b[0]] + b.drop_first());
        }
        if a == b {
            assert(a.drop_first() == b.drop_first());
        }
    } else if a.len() == 0 && b.len() == 0 {
        assert(a =~= b);
    }
}

/// No byte string comes before itself.
proof fn lemma_bytes_irreflexive(a: Seq<u8>)
    ensures
        !bytes_less(a, a),
    decreases a.len(),
{
    if a.len() > 0 {
        lemma_bytes_irreflexive(a.drop_first());
    }
}

/// Of two byte strings, at most one comes before the other.
proof fn lemma_bytes_asymmetric(a: Seq<u8>, b: Seq<u8>)
    ensures
        bytes_less(a, b) ==> !bytes_less(b, a),
    decreases a.len(),
{
    if a.len() > 0 && b.len() > 0 && a[0] == b[0] {
        lemma_bytes_asymmetric(a.drop_first(), b.drop_first());
    }
}

/// Byte order is transitive.
proof fn lemma_bytes_transitive(a: Seq<u8>, b: Seq<u8>, c: Seq<u8>)
    ensures
        bytes_less(a, b) && bytes_less(b, c) ==> bytes_less(a, c),
    decreases a.len(),
{
    if a.len() > 0 && b.len() > 0 && c.len() > 0 {
        lemma_bytes_transitive(a.drop_first(), b.drop_first(), c.drop_first());
    }
}

/// Of two different byte strings, one comes before the other.
proof fn lemma_bytes_total(a: Seq<u8>, b: Seq<u8>)
    ensures
        a == b || bytes_less(a, b) || bytes_less(b, a),
    decreases a.len(),
{
    lemma_bytes_order(a, b);
    if a.len() > 0 && b.len() > 0 {
        lemma_bytes_total(a.drop_first(), b.drop_first());
    }
}

} // verus!

verus! {

/// Where to decrypt to: with at least one input, an existing directory as the
/// output always takes the images, however many there are; otherwise one
/// input goes to the output path itself, and several are refused.
pub proof fn lemma_decrypt_plan_cases(input_count: nat, output_is_dir: bool)
    ensures
        input_count == 0 ==> decrypt_plan(input_count, output_is_dir) == Err::<
            DecryptMode,
            DecryptPlanError,
        >(DecryptPlanError::NoInput),
        input_count > 0 && output_is_dir ==> decrypt_plan(input_count, output_is_dir) == Ok::<
            DecryptMode,
            DecryptPlanError,
        >(DecryptMode::Vector),
        input_count == 1 && !output_is_dir ==> decrypt_plan(input_count, output_is_dir) == Ok::<
            DecryptMode,
            DecryptPlanError,
        >(DecryptMode::Scalar),
        input_count > 1 && !output_is_dir ==> decrypt_plan(input_count, output_is_dir) == Err::<
            DecryptMode,
            DecryptPlanError,
        >(DecryptPlanError::OutputNotDirectory),
{
}

/// What a file's first bytes say it is: the game's own header marks an
/// rpgmvp image, the encrypter's magic an encrypted asset, and the PNG
/// signature a plain image.
pub proof fn lemma_image_format_cases(magic: Seq<u8>)
    requires
        magic.len() == 32,
    ensures
        magic.subrange(0, 16) == crate::rpgmvp::header_bytes() ==> image_format(magic)
            == ImageFormat::Rpgmvp,
        magic == crate::encrypterator::magic() ==> image_format(magic)
            == ImageFormat::Encrypterator,
        magic.subrange(0, 8) == seq![0x89u8, 0x50, 0x4e, 0x47, 0x0d, 0x0a, 0x1a, 0x0a]
            ==> image_format(magic) == ImageFormat::Plain,
{
    if magic.subrange(0, 16) == crate::rpgmvp::header_bytes() {
        assert(magic[0] == magic.subrange(0, 16)[0]);
        assert(magic[0] == 0x52u8);
        assert(magic.subrange(0, 8)[0] == magic[0]);
        assert(magic.subrange(0, 3)[0] == magic[0]);
        assert(!starts_with(magic, png_magic()));
        assert(!starts_with(magic, jpeg_magic()));
        assert(magic != crate::encrypterator::magic()) by {
            if magic == crate::encrypterator::magic() {
                assert(crate::encrypterator::magic()[0] == 0x41u8);
            }
        }
    }
    if magic == crate::encrypterator::magic() {
        assert(magic.subrange(0, 8)[0] == 0x41u8);
        assert(magic.subrange(0, 3)[0] == 0x41u8);
        assert(!starts_with(magic, png_magic()));
        assert(!starts_with(magic, jpeg_magic()));
    }
    if magic.subrange(0, 8) == seq![0x89u8, 0x50, 0x4e, 0x47, 0x0d, 0x0a, 0x1a, 0x0a] {
        assert(magic.subrange(0, 8) =~= png_magic());
    }
}

proof fn lemma_dot_in_tail(stem: Seq<char>, ext: Seq<char>)
    requires
        stem.len() > 0,
        !ext.contains('.'),
    ensures
        extension_dot(stem + seq!['.'] + ext) == Some(stem.len() as int),
    decreases ext.len(),
{
    let name = stem + seq!['.'] + ext;
    if ext.len() == 0 {
        assert(name.last() == '.');
    } else {
        let e = ext.drop_last();
        assert(!e.contains('.')) by {
            if e.contains('.') {
                let j = choose|j: int| 0 <= j < e.len() && e[j] == '.';
                assert(ext[j] == '.');
            }
        }
        assert(ext[ext.len() - 1] != '.');
        lemma_dot_in_tail(stem, e);
        assert(name.drop_last() =~= stem + seq!['.'] + e);
        assert(name.last() == ext.last());
    }
}

/// The decrypted file of `stem.ext` is `stem.png`: the extension after the
/// last dot is replaced, whatever it was.
pub proof fn lemma_png_name_replaces_extension(stem: Seq<char>, ext: Seq<char>)
    requires
        stem.len() > 0,
        !ext.contains('.'),
    ensures
        png_name(stem + seq!['.'] + ext) == stem + ".png"@,
{
    lemma_dot_in_tail(stem, ext);
    assert((stem + seq!['.'] + ext).subrange(0, stem.len() as int) =~= stem);
}

} // verus!
