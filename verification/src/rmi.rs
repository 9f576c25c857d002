//! The `rmi` command: remove the cached layers of images.

use vstd::prelude::*;
use vstd::string::*;
use crate::ls::{
    layer_file_parts, lemma_layer_file_keeps_repository, parts_of_layer_file,
};
use crate::pull_image::{layer_file_name_spec, lemma_qualified_has_slash, qualified};
use crate::plan::{step_views, Step, StepView};
use crate::text::{
    has_char, lemma_find_from, lemma_find_from_unique, split_at_first, split_once, views, Text,
};
use crate::{packed_layer_dir, packed_layer_dir_spec};

verus! {

/// The arguments of `rmi`.
#[derive(Debug)]
pub struct RmiArgs {
    /// The images to remove, each named without a tag.
    pub images: Vec<String>,
}

/// The two parts of the repository of an image named without a tag: what
/// stands around its first slash, or `library` and the name where it has no
/// slash.
pub open spec fn image_parts(image: Text) -> (Text, Text) {
    match split_once(image, '/') {
        Some(parts) => parts,
        None => ("library"@, image),
    }
}

/// Whether the layer file `file` belongs to the image `image`.
pub open spec fn is_layer_of(file: Text, image: Text) -> bool {
    layer_file_parts(file) == Some(image_parts(image))
}

/// Whether every name holds a dot, as the name of a layer file does.
pub open spec fn all_layer_files(files: Seq<Text>) -> bool {
    forall|i: int| 0 <= i < files.len() ==> layer_file_parts(#[trigger] files[i]) is Some
}

/// The files that belong to `image` where `wanted` is on, and those that do
/// not where it is off, in their order.
pub open spec fn select(files: Seq<Text>, image: Text, wanted: bool) -> Seq<Text>
    decreases files.len(),
{
    if files.len() == 0 {
        Seq::empty()
    } else {
        let front = select(files.drop_last(), image, wanted);
        if is_layer_of(files.last(), image) == wanted {
            front.push(files.last())
        } else {
            front
        }
    }
}

/// The files that `rmi` removes: those of the first image, then those of
/// the second among the files that are left, and so on.
pub open spec fn rmi_files(images: Seq<Text>, files: Seq<Text>) -> Seq<Text>
    decreases images.len(),
{
    if images.len() == 0 {
        Seq::empty()
    } else {
        select(files, images[0], true) + rmi_files(
            images.drop_first(),
            select(files, images[0], false),
        )
    }
}

/// The steps that remove the files `names` from the layer cache.
pub open spec fn remove_steps(names: Seq<Text>) -> Seq<StepView> {
    Seq::new(
        names.len(),
        |i: int| StepView::RemoveFile { path: packed_layer_dir_spec() + "/"@ + names[i] },
    )
}

/// What is left after a selection is a part of what was there.
proof fn lemma_select_keeps_layer_files(files: Seq<Text>, image: Text, wanted: bool)
    requires
        all_layer_files(files),
    ensures
        all_layer_files(select(files, image, wanted)),
    decreases files.len(),
{
    if files.len() > 0 {
        let front = files.drop_last();
        assert forall|i: int| 0 <= i < front.len() implies layer_file_parts(
            #[trigger] front[i],
        ) is Some by {
            assert(front[i] == files[i]);
        }
        lemma_select_keeps_layer_files(front, image, wanted);
        assert(layer_file_parts(files[files.len() - 1]) is Some);
    }
}

/// Splits the files into those of `image` and the others.
fn partition(files: &Vec<String>, image: &str) -> (r: Option<(Vec<String>, Vec<String>)>)
    ensures
        match r {
            Some((hits, others)) => all_layer_files(views(files@)) && views(hits@) == select(
                views(files@),
                image@,
                true,
            ) && views(others@) == select(views(files@), image@, false),
            None => !all_layer_files(views(files@)),
        },
{
    let (image_left, image_right) = match split_at_first(image, '/') {
        Some(parts) => parts,
        None => ("library".to_owned(), image.to_owned()),
    };
    let mut hits: Vec<String> = Vec::new();
    let mut others: Vec<String> = Vec::new();
    let ghost names = views(files@);
    let n = files.len();
    let mut i: usize = 0;
    assert(names.take(0) =~= Seq::<Text>::empty());
    assert(views(hits@) =~= Seq::<Text>::empty());
    assert(views(others@) =~= Seq::<Text>::empty());
    while i < n
        invariant
            i <= n,
            n == files@.len(),
            names == views(files@),
            (image_left@, image_right@) == image_parts(image@),
            all_layer_files(names.take(i as int)),
            views(hits@) == select(names.take(i as int), image@, true),
            views(others@) == select(names.take(i as int), image@, false),
        decreases n - i,
    {
        proof {
            assert(names.take(i + 1).drop_last() =~= names.take(i as int));
            assert(names.take(i + 1).last() == files@[i as int]@);
        }
        match parts_of_layer_file(files[i].as_str()) {
            Some((left, right)) => {
                let ghost hits_before = views(hits@);
                let ghost others_before = views(others@);
                if left == image_left && right == image_right {
                    hits.push(files[i].clone());
                    assert(views(hits@) =~= hits_before.push(files@[i as int]@));
                } else {
                    others.push(files[i].clone());
                    assert(views(others@) =~= others_before.push(files@[i as int]@));
                }
                proof {
                    assert forall|k: int| 0 <= k < i + 1 implies layer_file_parts(
                        #[trigger] names.take(i + 1)[k],
                    ) is Some by {
                        if k < i {
                            assert(names.take(i + 1)[k] == names.take(i as int)[k]);
                        }
                    }
                }
            },
            None => {
                assert(layer_file_parts(names[i as int]) is None);
                return None;
            },
        }
        i += 1;
    }
    assert(names.take(n as int) =~= names);
    Some((hits, others))
}

/// The file that caches a layer of an image belongs to that image when it
/// is named without its tag, with or without `library/` before an official
/// image, as long as the name holds no dot.
pub proof fn lemma_rmi_finds_layer(name: Text, index: nat, digest: Text)
    requires
        !has_char(name, '.'),
    ensures
        is_layer_of(layer_file_name_spec(qualified(name), index, digest), name),
{
    let repository = qualified(name);
    lemma_qualified_has_slash(name);
    if !has_char(name, '/') {
        reveal_strlit("library/");
        reveal_strlit("library");
        let library = "library"@;
        lemma_find_from(name, '.', 0);
        lemma_find_from(name, '/', 0);
        assert forall|k: int| 0 <= k < repository.len() implies repository[k] != '.' by {
            if k >= 8 {
                assert(repository[k] == name[k - 8]);
            }
        }
        lemma_find_from_unique(repository, '.', 0, repository.len() as int);
        assert(repository[7] == '/');
        lemma_find_from_unique(repository, '/', 0, 7);
        assert(repository.subrange(0, 7) =~= library);
        assert(repository.subrange(8, repository.len() as int) =~= name);
    }
    lemma_layer_file_keeps_repository(repository, index, digest);
}

/// The steps that remove two runs of files are those for the first run and
/// then those for the second.
proof fn lemma_remove_steps_concat(a: Seq<Text>, b: Seq<Text>)
    ensures
        remove_steps(a + b) == remove_steps(a) + remove_steps(b),
{
    assert(remove_steps(a + b) =~= remove_steps(a) + remove_steps(b));
}

/// Appends to `steps` the steps that remove the files `names` from the
/// layer cache.
fn push_removals(steps: &mut Vec<Step>, names: &Vec<String>)
    ensures
        step_views(final(steps)@) == step_views(old(steps)@) + remove_steps(views(names@)),
{
    let ghost before = step_views(steps@);
    let mut k: usize = 0;
    assert(step_views(steps@) =~= before + remove_steps(views(names@).take(0)));
    while k < names.len()
        invariant
            k <= names@.len(),
            step_views(steps@) == before + remove_steps(views(names@).take(k as int)),
        decreases names@.len() - k,
    {
        let mut path = packed_layer_dir();
        path.append("/");
        path.append(names[k].as_str());
        let ghost so_far = step_views(steps@);
        let ghost step = StepView::RemoveFile { path: path@ };
        steps.push(Step::RemoveFile { path });
        proof {
            let done = views(names@).take(k as int);
            let next = views(names@).take(k + 1);
            assert(step_views(steps@) =~= so_far.push(step));
            assert(next =~= done.push(names@[k as int]@));
            assert(remove_steps(next) =~= remove_steps(done).push(step));
        }
        k += 1;
    }
    assert(views(names@).take(names@.len() as int) =~= views(names@));
}

impl RmiArgs {
    /// The arguments of `rmi` for these images, each named without a tag.
    pub fn new(images: Vec<String>) -> (r: RmiArgs)
        ensures
            r.images == images,
    {
        RmiArgs { images }
    }

    /// The steps of `rmi`, given the names of the files in the layer cache:
    /// one step for each file that belongs to one of the images. `None`
    /// where there is an image to remove and the cache holds a file whose
    /// name has no dot.
    pub fn run(self, layer_files: Vec<String>) -> (r: Option<Vec<Step>>)
        ensures
            match r {
                Some(steps) => step_views(steps@) == remove_steps(
                    rmi_files(views(self.images@), views(layer_files@)),
                ),
                None => self.images@.len() > 0 && !all_layer_files(views(layer_files@)),
            },
            self.images@.len() == 0 || all_layer_files(views(layer_files@)) ==> r is Some,
    {
        let mut steps: Vec<Step> = Vec::new();
        let mut files = layer_files;
        let ghost images = views(self.images@);
        let ghost all_files = views(layer_files@);
        let ghost mut removed: Seq<Text> = Seq::empty();
        let n = self.images.len();
        let mut i: usize = 0;
        assert(images.skip(0) =~= images);
        assert(removed + rmi_files(images, all_files) =~= rmi_files(images, all_files));
        assert(step_views(steps@) =~= remove_steps(removed));
        while i < n
            invariant
                i <= n,
                n == self.images@.len(),
                images == views(self.images@),
                all_files == views(layer_files@),
                i > 0 ==> all_layer_files(all_files),
                all_layer_files(all_files) ==> all_layer_files(views(files@)),
                !all_layer_files(all_files) ==> views(files@) == all_files,
                step_views(steps@) == remove_steps(removed),
                rmi_files(images, all_files) == removed + rmi_files(
                    images.skip(i as int),
                    views(files@),
                ),
            decreases n - i,
        {
            let ghost before = views(files@);
            let (hits, others) = match partition(&files, self.images[i].as_str()) {
                Some(parts) => parts,
                None => {
                    return None;
                },
            };
            proof {
                assert(images.skip(i as int)[0] == self.images@[i as int]@);
                assert(images.skip(i as int).drop_first() =~= images.skip(i + 1));
                lemma_select_keeps_layer_files(before, self.images@[i as int]@, false);
                assert(removed + (views(hits@) + rmi_files(images.skip(i + 1), views(others@)))
                    =~= (removed + views(hits@)) + rmi_files(
                    images.skip(i + 1),
                    views(others@),
                ));
            }
            push_removals(&mut steps, &hits);
            proof {
                lemma_remove_steps_concat(removed, views(hits@));
                removed = removed + views(hits@);
            }
            files = others;
            i += 1;
        }
        proof {
            assert(images.skip(n as int) =~= Seq::<Text>::empty());
            assert(removed + Seq::<Text>::empty() =~= removed);
        }
        Some(steps)
    }
}

} // verus!
