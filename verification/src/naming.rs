//! Where an image goes: `<directory>/<index>.png`, the index in decimal. A
//! directory that already ends with the separator gets no second one, and the
//! empty directory stands for the current one: the path is the bare file name.

use crate::decimal::{
    decimal_text, digits_of, is_digit, law_decimal_text_injective, lemma_digits_of,
    push_decimal,
};
use crate::dispatch::{law_claims_in_order, nth_answer};
use vstd::prelude::*;
use vstd::string::*;

verus! {

/// The file name extension, `.png`.
pub open spec fn extension() -> Seq<char> {
    seq!['.', 'p', 'n', 'g']
}

/// The name of the file of image `id`.
pub open spec fn file_name(id: int) -> Seq<char> {
    decimal_text(id) + extension()
}

/// What stands between a directory and a file name in it: `/`, or nothing
/// where the directory already ends with `/` or is empty.
pub open spec fn separator_after(directory: Seq<char>) -> Seq<char> {
    if directory.len() == 0 || directory.last() == '/' {
        Seq::<char>::empty()
    } else {
        seq!['/']
    }
}

/// The path of the file of image `id` in `directory`. In the empty directory
/// it is the file name alone.
pub open spec fn path_text(directory: Seq<char>, id: int) -> Seq<char> {
    directory + separator_after(directory) + file_name(id)
}

/// A file name is one path component: it holds no separator.
pub proof fn law_file_name_is_one_component(id: int)
    ensures
        forall|i: int| 0 <= i < file_name(id).len() ==> #[trigger] file_name(id)[i] != '/',
{
    let text = decimal_text(id);
    assert forall|i: int| 0 <= i < file_name(id).len() implies #[trigger] file_name(id)[i]
        != '/' by {
        if i < text.len() {
            assert(file_name(id)[i] == text[i]);
            if id < 0 {
                lemma_digits_of((-id) as nat);
                if i > 0 {
                    assert(text[i] == digits_of((-id) as nat)[i - 1]);
                    assert(is_digit(text[i]));
                }
            } else {
                lemma_digits_of(id as nat);
                assert(is_digit(text[i]));
            }
        } else {
            assert(file_name(id)[i] == extension()[i - text.len()]);
        }
    }
}

/// The file lies in the directory: its path is the directory, closed by
/// exactly one separator of its own or an added one, and then the file name.
pub proof fn law_path_lies_in_directory(directory: Seq<char>, id: int)
    requires
        directory.len() > 0,
    ensures
        path_text(directory, id) == (directory + separator_after(directory)) + file_name(id),
        (directory + separator_after(directory)).last() == '/',
        directory.last() == '/' ==> directory + separator_after(directory) == directory,
        directory.last() != '/' ==> directory + separator_after(directory) == directory.push('/'),
{
    let closed = directory + separator_after(directory);
    if directory.last() == '/' {
        assert(closed =~= directory);
    } else {
        assert(closed =~= directory.push('/'));
    }
}

/// Images with different indices have different file names.
pub proof fn law_file_names_differ(a: int, b: int)
    requires
        file_name(a) == file_name(b),
    ensures
        a == b,
{
    let ta = decimal_text(a);
    let tb = decimal_text(b);
    assert(file_name(a).len() == ta.len() + 4);
    assert(file_name(b).len() == tb.len() + 4);
    assert(file_name(a).subrange(0, ta.len() as int) =~= ta);
    assert(file_name(b).subrange(0, tb.len() as int) =~= tb);
    law_decimal_text_injective(a, b);
}

/// Under one directory, images with different indices go to different paths.
pub proof fn law_paths_differ(directory: Seq<char>, a: int, b: int)
    requires
        path_text(directory, a) == path_text(directory, b),
    ensures
        a == b,
{
    let pa = path_text(directory, a);
    let pb = path_text(directory, b);
    let closed = directory + separator_after(directory);
    assert(pa.subrange(closed.len() as int, pa.len() as int) =~= file_name(a));
    assert(pb.subrange(closed.len() as int, pb.len() as int) =~= file_name(b));
    law_file_names_differ(a, b);
}

/// A batch of `target` images fills `target` files and no file twice: claim
/// number `k` below the target is answered with index `k`, whose file is named
/// by the decimal text of `k`, and two such claims go to different paths in
/// the directory.
pub proof fn law_batch_paths(directory: Seq<char>, target: int, j: nat, k: nat)
    requires
        j < target,
        k < target,
        j != k,
    ensures
        nth_answer(target, j) == Some(j as int),
        nth_answer(target, k) == Some(k as int),
        path_text(directory, j as int) == directory + separator_after(directory) + decimal_text(
            j as int,
        ) + extension(),
        path_text(directory, j as int) != path_text(directory, k as int),
{
    law_claims_in_order(target, j);
    law_claims_in_order(target, k);
    if path_text(directory, j as int) == path_text(directory, k as int) {
        law_paths_differ(directory, j as int, k as int);
    }
    assert(path_text(directory, j as int) =~= directory + separator_after(directory)
        + decimal_text(j as int) + extension());
}

/// The path of the file of image `id` in `output_directory`: the directory,
/// a `/` unless it ends with one or is empty, the index in decimal, `.png`.
pub fn image_path(output_directory: &str, id: i32) -> (path: String)
    ensures
        path@ == path_text(output_directory@, id as int),
{
    let mut path = String::from_str(output_directory);
    let length: usize = output_directory.unicode_len();
    if length > 0 && output_directory.get_char(length - 1) != '/' {
        proof {
            reveal_strlit("/");
        }
        path.append("/");
    }
    assert(path@ =~= output_directory@ + separator_after(output_directory@));
    push_decimal(&mut path, id);
    proof {
        reveal_strlit(".png");
    }
    path.append(".png");
    assert(path@ =~= path_text(output_directory@, id as int));
    path
}

} // verus!
