use mydocker::cli::{Cli, Command};
use mydocker::ls::{parts_of_layer_file, LsArgs, Listing};
use mydocker::plan::Step;
use mydocker::pull_image::{layer_cache_path, ImageReference};
use mydocker::rmi::RmiArgs;

fn names(list: &[&str]) -> Vec<String> {
    list.iter().map(|s| s.to_string()).collect()
}

fn removal(file: &str) -> Step {
    Step::RemoveFile { path: format!("/tmp/mydocker/layers/{}", file) }
}

#[test]
fn layer_file_names_start_with_the_repository() {
    assert_eq!(
        parts_of_layer_file("library.busybox.0.sha256:abc.tar.gz"),
        Some(("library".to_string(), "busybox".to_string()))
    );
    assert_eq!(parts_of_layer_file("a.b"), Some(("a".to_string(), "b".to_string())));
    assert_eq!(parts_of_layer_file("a."), Some(("a".to_string(), String::new())));
    assert_eq!(parts_of_layer_file(".b.c"), Some((String::new(), "b".to_string())));
    assert_eq!(parts_of_layer_file("nodot"), None);
    assert_eq!(parts_of_layer_file(""), None);
}

#[test]
fn ls_shows_each_image_once_in_order() {
    let files = names(&[
        "library.busybox.0.sha256:a.tar.gz",
        "library.ubuntu.0.sha256:b.tar.gz",
        "library.busybox.1.sha256:c.tar.gz",
        "me.tool.0.sha256:d.tar.gz",
        "library.ubuntu.1.sha256:e.tar.gz",
    ]);
    let listing = LsArgs {}.run(names(&["web", "default"]), &files).unwrap();
    assert_eq!(
        listing,
        Listing {
            containers: names(&["web", "default"]),
            images: names(&["library/busybox", "library/ubuntu", "me/tool"]),
        }
    );
}

#[test]
fn ls_of_nothing_shows_nothing() {
    let listing = LsArgs {}.run(vec![], &vec![]).unwrap();
    assert!(listing.containers.is_empty());
    assert!(listing.images.is_empty());
}

#[test]
fn ls_refuses_a_file_that_is_no_layer() {
    let files = names(&["library.busybox.0.sha256:a.tar.gz", "README"]);
    assert_eq!(LsArgs {}.run(vec![], &files), None);
}

#[test]
fn ls_shows_the_image_that_a_layer_was_cached_for() {
    let image = ImageReference::parse("busybox:latest").unwrap();
    let path = layer_cache_path(&image, 3, "sha256:abc");
    let file = path.strip_prefix("/tmp/mydocker/layers/").unwrap().to_string();
    let listing = LsArgs {}.run(vec![], &vec![file]).unwrap();
    assert_eq!(listing.images, names(&["library/busybox"]));
}

#[test]
fn rmi_removes_the_layers_of_the_images_named() {
    let files = names(&[
        "library.busybox.0.sha256:a.tar.gz",
        "library.ubuntu.0.sha256:b.tar.gz",
        "library.busybox.1.sha256:c.tar.gz",
        "me.tool.0.sha256:d.tar.gz",
    ]);
    let steps = RmiArgs::new(names(&["me/tool", "busybox"])).run(files.clone()).unwrap();
    assert_eq!(
        steps,
        vec![
            removal("me.tool.0.sha256:d.tar.gz"),
            removal("library.busybox.0.sha256:a.tar.gz"),
            removal("library.busybox.1.sha256:c.tar.gz"),
        ]
    );
    let official = RmiArgs::new(names(&["library/ubuntu"])).run(files.clone()).unwrap();
    assert_eq!(official, vec![removal("library.ubuntu.0.sha256:b.tar.gz")]);
    let unknown = RmiArgs::new(names(&["alpine"])).run(files).unwrap();
    assert!(unknown.is_empty());
}

#[test]
fn rmi_removes_each_file_once() {
    let files = names(&["library.busybox.0.sha256:a.tar.gz"]);
    let steps = RmiArgs::new(names(&["busybox", "library/busybox", "busybox"])).run(files).unwrap();
    assert_eq!(steps, vec![removal("library.busybox.0.sha256:a.tar.gz")]);
}

#[test]
fn rmi_without_images_reads_nothing() {
    assert_eq!(RmiArgs::new(vec![]).run(names(&["README"])), Some(vec![]));
    assert_eq!(RmiArgs::new(vec![]).run(vec![]), Some(vec![]));
}

#[test]
fn rmi_refuses_a_file_that_is_no_layer() {
    let files = names(&["library.busybox.0.sha256:a.tar.gz", "README"]);
    assert_eq!(RmiArgs::new(names(&["busybox"])).run(files.clone()), None);
    assert_eq!(RmiArgs::new(names(&["alpine", "busybox"])).run(files), None);
}

#[test]
fn commands_on_images_take_no_container() {
    let rmi = Cli { sub_command: Command::Rmi(RmiArgs::new(names(&["busybox"]))) };
    assert_eq!(rmi.container(), None);
}
