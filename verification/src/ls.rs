//! The `ls` command: the containers, and the images of which layers are
//! cached.

use vstd::prelude::*;
use vstd::string::*;
use crate::pull_image::layer_file_name_spec;
use crate::text::{
    chars_of, concat2, decimal, find, find_char_from, has_char, lemma_find_from,
    lemma_find_from_unique, lemma_split_once, split_at_first, split_once, views, Text,
};

verus! {

/// The arguments of `ls`: none.
#[derive(Debug)]
pub struct LsArgs {}

/// What `ls` shows.
#[derive(Debug, PartialEq, Eq)]
pub struct Listing {
    /// The names of the containers, as they were given.
    pub containers: Vec<String>,
    /// The images with a cached layer, each once, in the order in which
    /// their first layer file came.
    pub images: Vec<String>,
}

/// The two parts of the repository in the name of a layer file: what stands
/// before its first dot, and what stands between that and the next dot or
/// the end. `None` for a name without a dot.
pub open spec fn layer_file_parts(file: Text) -> Option<(Text, Text)> {
    match split_once(file, '.') {
        Some((left, rest)) => Some((left, rest.take(find(rest, '.')))),
        None => None,
    }
}

/// The image that a layer file belongs to: its two parts around a slash.
pub open spec fn image_of_layer_file(file: Text) -> Option<Text> {
    match layer_file_parts(file) {
        Some((left, right)) => Some(left + "/"@ + right),
        None => None,
    }
}

/// The images of the layer files, each once, in the order in which they
/// first come. `None` where a name holds no dot.
pub open spec fn images_of(files: Seq<Text>) -> Option<Seq<Text>>
    decreases files.len(),
{
    if files.len() == 0 {
        Some(Seq::empty())
    } else {
        match (images_of(files.drop_last()), image_of_layer_file(files.last())) {
            (Some(front), Some(image)) => Some(
                if front.contains(image) {
                    front
                } else {
                    front.push(image)
                },
            ),
            _ => None,
        }
    }
}

/// The two parts of the repository in the name of a layer file.
pub fn parts_of_layer_file(file: &str) -> (r: Option<(String, String)>)
    ensures
        match r {
            Some((left, right)) => layer_file_parts(file@) == Some((left@, right@)),
            None => layer_file_parts(file@) is None,
        },
{
    match split_at_first(file, '.') {
        Some((left, rest)) => {
            let chars = chars_of(rest.as_str());
            let dot = find_char_from(&chars, '.', 0);
            let right = rest.as_str().substring_char(0, dot).to_owned();
            proof {
                assert(rest@.subrange(0, dot as int) =~= rest@.take(dot as int));
            }
            Some((left, right))
        },
        None => None,
    }
}

/// Whether `items` holds `wanted`.
fn contains_string(items: &Vec<String>, wanted: &String) -> (r: bool)
    ensures
        r == views(items@).contains(wanted@),
{
    let mut i: usize = 0;
    while i < items.len()
        invariant
            i <= items@.len(),
            forall|k: int| 0 <= k < i ==> views(items@)[k] != wanted@,
        decreases items@.len() - i,
    {
        if items[i] == *wanted {
            assert(views(items@)[i as int] == wanted@);
            return true;
        }
        i += 1;
    }
    false
}

impl LsArgs {
    /// What `ls` shows for the entries of the directory of containers and
    /// those of the layer cache. `None` where the cache holds a file whose
    /// name has no dot: it is no layer file.
    pub fn run(self, containers: Vec<String>, layer_files: &Vec<String>) -> (r: Option<Listing>)
        ensures
            match images_of(views(layer_files@)) {
                Some(images) => r matches Some(listing) && listing.containers == containers
                    && views(listing.images@) == images,
                None => r is None,
            },
    {
        let mut images: Vec<String> = Vec::new();
        let n = layer_files.len();
        let ghost files = views(layer_files@);
        let mut i: usize = 0;
        assert(files.take(0) =~= Seq::<Text>::empty());
        assert(views(images@) =~= Seq::<Text>::empty());
        while i < n
            invariant
                i <= n,
                n == layer_files@.len(),
                files == views(layer_files@),
                images_of(files.take(i as int)) == Some(views(images@)),
            decreases n - i,
        {
            proof {
                assert(files.take(i + 1).drop_last() =~= files.take(i as int));
                assert(files.take(i + 1).last() == layer_files@[i as int]@);
            }
            match parts_of_layer_file(layer_files[i].as_str()) {
                Some((left, right)) => {
                    let mut image = concat2(left.as_str(), "/");
                    image.append(right.as_str());
                    if !contains_string(&images, &image) {
                        let ghost before = views(images@);
                        images.push(image);
                        assert(views(images@) =~= before.push(image@));
                    }
                },
                None => {
                    proof {
                        lemma_images_of_prefix(files, i + 1);
                    }
                    return None;
                },
            }
            i += 1;
        }
        assert(files.take(n as int) =~= files);
        Some(Listing { containers, images })
    }
}

/// Where the images of the first `k` files cannot be told, those of all the
/// files cannot be told either.
proof fn lemma_images_of_prefix(files: Seq<Text>, k: int)
    requires
        0 <= k <= files.len(),
        images_of(files.take(k)) is None,
    ensures
        images_of(files) is None,
    decreases files.len() - k,
{
    if k == files.len() {
        assert(files.take(k) =~= files);
    } else {
        assert(files.take(k + 1).drop_last() =~= files.take(k));
        lemma_images_of_prefix(files, k + 1);
    }
}

/// The name of the file that caches a layer starts with the two parts of the
/// repository it was pulled for, as long as the repository holds no dot.
pub proof fn lemma_layer_file_keeps_repository(repository: Text, index: nat, digest: Text)
    requires
        has_char(repository, '/'),
        !has_char(repository, '.'),
    ensures
        layer_file_parts(layer_file_name_spec(repository, index, digest)) == split_once(
            repository,
            '/',
        ),
{
    reveal_strlit(".");
    lemma_split_once(repository, '/');
    let parts = split_once(repository, '/').unwrap();
    let left = parts.0;
    let right = parts.1;
    assert(repository == left + seq!['/'] + right);
    lemma_find_from(repository, '.', 0);
    assert forall|k: int| 0 <= k < left.len() implies left[k] != '.' by {
        assert(left[k] == repository[k]);
    }
    assert forall|k: int| 0 <= k < right.len() implies right[k] != '.' by {
        assert(right[k] == repository[left.len() + 1 + k]);
    }
    let tail = decimal(index) + "."@ + digest + ".tar.gz"@;
    let file = layer_file_name_spec(repository, index, digest);
    let rest = right + "."@ + tail;
    assert(file =~= left + "."@ + rest);
    assert(file[left.len() as int] == '.');
    assert forall|k: int| 0 <= k < left.len() implies file[k] != '.' by {
        assert(file[k] == left[k]);
    }
    lemma_find_from_unique(file, '.', 0, left.len() as int);
    assert(file.subrange(0, left.len() as int) =~= left);
    assert(file.subrange(left.len() as int + 1, file.len() as int) =~= rest);
    assert(rest[right.len() as int] == '.');
    assert forall|k: int| 0 <= k < right.len() implies rest[k] != '.' by {
        assert(rest[k] == right[k]);
    }
    lemma_find_from_unique(rest, '.', 0, right.len() as int);
    assert(rest.take(right.len() as int) =~= right);
}

/// The file that caches a layer is listed under the image it was pulled
/// for, as long as the repository holds no dot.
pub proof fn lemma_layer_file_shows_image(repository: Text, index: nat, digest: Text)
    requires
        has_char(repository, '/'),
        !has_char(repository, '.'),
    ensures
        image_of_layer_file(layer_file_name_spec(repository, index, digest)) == Some(repository),
{
    reveal_strlit("/");
    lemma_layer_file_keeps_repository(repository, index, digest);
    lemma_split_once(repository, '/');
    assert("/"@ =~= seq!['/']);
}

} // verus!
