//! Resolving an image at a registry: the image reference, the requests for
//! the manifest list and the manifest, the choice of the platform, the names
//! under which layers are cached and unpacked, and the overlay they form.

use vstd::prelude::*;
use vstd::string::*;
use crate::error::Error;
use crate::token_auth::is_success;
use crate::text::{
    chars_of, concat2, decimal, find_char_from, has_char, join, join_strings,
    lemma_decimal_round_trip, lemma_find_from, lemma_has_char, lemma_same_prefix, split_at_first,
    split_once, str_eq, usize_to_decimal, views, Text,
};
use crate::{
    overlay_fs_lower_dir, overlay_fs_lower_dir_spec, overlay_fs_upper_dir,
    overlay_fs_upper_dir_spec, overlay_fs_work_dir, overlay_fs_work_dir_spec, packed_layer_dir,
    packed_layer_dir_spec,
};

verus! {

/// The media type of a manifest list.
pub const MEDIA_TYPE_MANIFEST_LIST: &'static str =
    "application/vnd.docker.distribution.manifest.list.v2+json";

/// The media type of a distribution manifest.
pub const MEDIA_TYPE_DISTRIBUTION: &'static str =
    "application/vnd.docker.distribution.manifest.v2+json";

/// The media type of an OCI manifest.
pub const MEDIA_TYPE_OCI: &'static str = "application/vnd.oci.image.manifest.v1+json";

/// The two kinds of image manifest that can be pulled.
#[derive(Debug, Clone, Copy, PartialEq, Eq, Structural)]
pub enum MediaType {
    /// A distribution manifest, version 2.
    Distribution,
    /// An OCI image manifest, version 1.
    Oci,
}

/// The kind of manifest that a media type names, if it is one of the two.
pub open spec fn media_type_of(name: Text) -> Option<MediaType> {
    if name == MEDIA_TYPE_DISTRIBUTION@ {
        Some(MediaType::Distribution)
    } else if name == MEDIA_TYPE_OCI@ {
        Some(MediaType::Oci)
    } else {
        None
    }
}

impl MediaType {
    /// The name of the media type.
    pub open spec fn name_spec(self) -> Text {
        match self {
            MediaType::Distribution => MEDIA_TYPE_DISTRIBUTION@,
            MediaType::Oci => MEDIA_TYPE_OCI@,
        }
    }

    /// The kind of manifest that `name` names; `None` for any other name.
    pub fn from_name(name: &str) -> (r: Option<MediaType>)
        ensures
            r == media_type_of(name@),
    {
        if str_eq(name, MEDIA_TYPE_DISTRIBUTION) {
            Some(MediaType::Distribution)
        } else if str_eq(name, MEDIA_TYPE_OCI) {
            Some(MediaType::Oci)
        } else {
            None
        }
    }

    /// The name of the media type.
    pub fn name(&self) -> (r: &'static str)
        ensures
            r@ == self.name_spec(),
    {
        match self {
            MediaType::Distribution => MEDIA_TYPE_DISTRIBUTION,
            MediaType::Oci => MEDIA_TYPE_OCI,
        }
    }
}

/// The name by which registries call an architecture: `i386` for `x86`,
/// `amd64` for `x86_64`, `arm64` for `aarch64`, and any other name as it is.
pub open spec fn docker_arch_spec(arch: Text) -> Text {
    if arch == "x86"@ {
        "i386"@
    } else if arch == "x86_64"@ {
        "amd64"@
    } else if arch == "aarch64"@ {
        "arm64"@
    } else {
        arch
    }
}

/// The name by which registries call the architecture `arch`.
pub fn docker_arch<'a>(arch: &'a str) -> (r: &'a str)
    ensures
        r@ == docker_arch_spec(arch@),
{
    if str_eq(arch, "x86") {
        "i386"
    } else if str_eq(arch, "x86_64") {
        "amd64"
    } else if str_eq(arch, "aarch64") {
        "arm64"
    } else {
        arch
    }
}

/// The platform that a manifest is for.
#[derive(Debug, Clone, PartialEq, Eq)]
pub struct ImagePlatform {
    pub architecture: String,
    pub os: String,
    pub os_version: Option<String>,
    pub os_features: Option<Vec<String>>,
    pub variant: Option<String>,
    pub features: Option<Vec<String>>,
}

/// An entry of a manifest list: a manifest and the platform it is for.
#[derive(Debug, Clone, PartialEq, Eq)]
pub struct ImagePlatformManifest {
    pub media_type: String,
    pub size: usize,
    pub digest: String,
    pub platform: ImagePlatform,
}

/// A manifest list: the manifests of one image, one for each platform.
#[derive(Debug, Clone, PartialEq, Eq)]
pub struct ImageManifestList {
    pub schema_version: usize,
    pub media_type: String,
    pub manifests: Vec<ImagePlatformManifest>,
}

/// The configuration blob of an image.
#[derive(Debug, Clone, PartialEq, Eq)]
pub struct ImageConfig {
    pub media_type: String,
    pub size: usize,
    pub digest: String,
}

/// A layer of an image. The digest is its content address.
#[derive(Debug, Clone, PartialEq, Eq)]
pub struct ImageLayer {
    pub media_type: String,
    pub size: usize,
    pub digest: String,
    pub urls: Option<Vec<String>>,
}

/// An image manifest: the layers of an image, the base layer first.
#[derive(Debug, Clone, PartialEq, Eq)]
pub struct ImageManifest {
    pub schema_version: usize,
    pub media_type: String,
    pub config: ImageConfig,
    pub layers: Vec<ImageLayer>,
}

impl ImagePlatform {
    /// The CPU architecture, as registries name it.
    pub fn architecture(&self) -> (r: &String)
        ensures
            *r == self.architecture,
    {
        &self.architecture
    }

    /// The operating system.
    pub fn os(&self) -> (r: &String)
        ensures
            *r == self.os,
    {
        &self.os
    }

    /// The version of the operating system, if one is asked for.
    pub fn os_version(&self) -> (r: &Option<String>)
        ensures
            *r == self.os_version,
    {
        &self.os_version
    }

    /// The features of the operating system that are asked for.
    pub fn os_features(&self) -> (r: &Option<Vec<String>>)
        ensures
            *r == self.os_features,
    {
        &self.os_features
    }

    /// The variant of the CPU.
    pub fn variant(&self) -> (r: &Option<String>)
        ensures
            *r == self.variant,
    {
        &self.variant
    }

    /// The features of the CPU that are asked for.
    pub fn features(&self) -> (r: &Option<Vec<String>>)
        ensures
            *r == self.features,
    {
        &self.features
    }
}

impl ImagePlatformManifest {
    /// The media type of the manifest.
    pub fn media_type(&self) -> (r: &String)
        ensures
            *r == self.media_type,
    {
        &self.media_type
    }

    /// The size of the manifest in bytes.
    pub fn size(&self) -> (r: usize)
        ensures
            r == self.size,
    {
        self.size
    }

    /// The content address of the manifest.
    pub fn digest(&self) -> (r: &String)
        ensures
            *r == self.digest,
    {
        &self.digest
    }

    /// The platform that the manifest is for.
    pub fn platform(&self) -> (r: &ImagePlatform)
        ensures
            *r == self.platform,
    {
        &self.platform
    }
}

impl ImageManifestList {
    /// The version of the schema of the list.
    pub fn schema_version(&self) -> (r: usize)
        ensures
            r == self.schema_version,
    {
        self.schema_version
    }

    /// The media type of the list.
    pub fn media_type(&self) -> (r: &String)
        ensures
            *r == self.media_type,
    {
        &self.media_type
    }

    /// The manifests, one for each platform.
    pub fn manifests(&self) -> (r: &Vec<ImagePlatformManifest>)
        ensures
            *r == self.manifests,
    {
        &self.manifests
    }
}

impl ImageConfig {
    /// The media type of the configuration.
    pub fn media_type(&self) -> (r: &String)
        ensures
            *r == self.media_type,
    {
        &self.media_type
    }

    /// The size of the configuration in bytes.
    pub fn size(&self) -> (r: usize)
        ensures
            r == self.size,
    {
        self.size
    }

    /// The content address of the configuration.
    pub fn digest(&self) -> (r: &String)
        ensures
            *r == self.digest,
    {
        &self.digest
    }
}

impl ImageLayer {
    /// The media type of the layer.
    pub fn media_type(&self) -> (r: &String)
        ensures
            *r == self.media_type,
    {
        &self.media_type
    }

    /// The size of the layer in bytes.
    pub fn size(&self) -> (r: usize)
        ensures
            r == self.size,
    {
        self.size
    }

    /// The content address of the layer.
    pub fn digest(&self) -> (r: &String)
        ensures
            *r == self.digest,
    {
        &self.digest
    }

    /// Other places to get the layer from.
    pub fn urls(&self) -> (r: &Option<Vec<String>>)
        ensures
            *r == self.urls,
    {
        &self.urls
    }
}

impl ImageManifest {
    /// The version of the schema of the manifest.
    pub fn schema_version(&self) -> (r: usize)
        ensures
            r == self.schema_version,
    {
        self.schema_version
    }

    /// The media type of the manifest.
    pub fn media_type(&self) -> (r: &String)
        ensures
            *r == self.media_type,
    {
        &self.media_type
    }

    /// The configuration of the image.
    pub fn config(&self) -> (r: &ImageConfig)
        ensures
            *r == self.config,
    {
        &self.config
    }

    /// The layers, the base layer first.
    pub fn layers(&self) -> (r: &Vec<ImageLayer>)
        ensures
            *r == self.layers,
    {
        &self.layers
    }
}

/// The repository of an image, with `library/` put before a name that has no
/// slash.
pub open spec fn qualified(name: Text) -> Text {
    if has_char(name, '/') {
        name
    } else {
        "library/"@ + name
    }
}

/// An image reference in specifications.
pub struct ImageReferenceView {
    pub repository: Text,
    pub tag_or_digest: Text,
}

/// The reference that the text `image` spells: what stands before its first
/// colon names the repository, what stands behind it is the tag or digest.
/// `None` for a text without a colon.
pub open spec fn image_reference_of(image: Text) -> Option<ImageReferenceView> {
    match split_once(image, ':') {
        Some((name, tag)) => Some(
            ImageReferenceView { repository: qualified(name), tag_or_digest: tag },
        ),
        None => None,
    }
}

/// A qualified repository holds a slash.
pub proof fn lemma_qualified_has_slash(name: Text)
    ensures
        has_char(qualified(name), '/'),
{
    if !has_char(name, '/') {
        reveal_strlit("library/");
        let q = "library/"@ + name;
        assert(q[7] == '/');
        lemma_has_char(q, '/');
    }
}

/// An image at a registry: a repository, which always holds a slash, and a
/// tag or digest.
#[derive(Debug)]
pub struct ImageReference {
    repository: String,
    tag_or_digest: String,
}

impl View for ImageReference {
    type V = ImageReferenceView;

    closed spec fn view(&self) -> ImageReferenceView {
        ImageReferenceView { repository: self.repository@, tag_or_digest: self.tag_or_digest@ }
    }
}

impl ImageReference {
    /// What holds of every value of this type: the repository has a
    /// namespace before a slash.
    #[verifier::type_invariant]
    pub open spec fn is_qualified(self) -> bool {
        has_char(self@.repository, '/')
    }

    /// Reads an image reference such as `busybox:latest`.
    pub fn parse(image: &str) -> (r: Option<ImageReference>)
        ensures
            match r {
                Some(reference) => image_reference_of(image@) == Some(reference@),
                None => image_reference_of(image@) is None,
            },
    {
        match split_at_first(image, ':') {
            Some((name, tag)) => {
                let chars = chars_of(name.as_str());
                let slash = find_char_from(&chars, '/', 0);
                let repository = if slash < chars.len() {
                    name
                } else {
                    concat2("library/", name.as_str())
                };
                proof {
                    lemma_qualified_has_slash(name@);
                }
                Some(ImageReference { repository, tag_or_digest: tag })
            },
            None => None,
        }
    }

    /// The repository, with its namespace.
    pub fn repository(&self) -> (r: &String)
        ensures
            r@ == self@.repository,
            has_char(r@, '/'),
    {
        proof {
            use_type_invariant(self);
        }
        &self.repository
    }

    /// The tag or the digest.
    pub fn tag_or_digest(&self) -> (r: &String)
        ensures
            r@ == self@.tag_or_digest,
    {
        &self.tag_or_digest
    }
}

/// A request for a manifest or a manifest list.
#[derive(Debug, Clone, PartialEq, Eq)]
pub struct ManifestRequest {
    /// Where to send the request.
    pub url: String,
    /// What to send as the `Accept` header.
    pub accept: String,
}

/// The address of the manifest `reference` of `repository`.
pub open spec fn manifest_url_spec(registry: Text, repository: Text, reference: Text) -> Text {
    registry + "/v2/"@ + repository + "/manifests/"@ + reference
}

/// The address of the blob `digest` of `repository`.
pub open spec fn blob_url_spec(registry: Text, repository: Text, digest: Text) -> Text {
    registry + "/v2/"@ + repository + "/blobs/"@ + digest
}

/// The address of the manifest `reference` of `repository`.
pub fn manifest_url(registry: &str, repository: &str, reference: &str) -> (r: String)
    ensures
        r@ == manifest_url_spec(registry@, repository@, reference@),
{
    let mut r = concat2(registry, "/v2/");
    r.append(repository);
    r.append("/manifests/");
    r.append(reference);
    r
}

/// The address of the blob `digest` of `repository`.
pub fn blob_url(registry: &str, repository: &str, digest: &str) -> (r: String)
    ensures
        r@ == blob_url_spec(registry@, repository@, digest@),
{
    let mut r = concat2(registry, "/v2/");
    r.append(repository);
    r.append("/blobs/");
    r.append(digest);
    r
}

/// The first step of a pull: reads the image reference and asks the
/// registry for the manifest list of the image.
///
/// `None` where `image` holds no colon, and so names no tag.
pub fn pull(registry: &str, image: &str) -> (r: Option<(ImageReference, ManifestRequest)>)
    ensures
        match image_reference_of(image@) {
            Some(reference) => r matches Some((found, request)) && found@ == reference
                && request.url@ == manifest_url_spec(
                registry@,
                reference.repository,
                reference.tag_or_digest,
            ) && request.accept@ == MEDIA_TYPE_MANIFEST_LIST@,
            None => r is None,
        },
{
    match ImageReference::parse(image) {
        Some(reference) => {
            let url = manifest_url(
                registry,
                reference.repository().as_str(),
                reference.tag_or_digest().as_str(),
            );
            let accept = MEDIA_TYPE_MANIFEST_LIST.to_owned();
            Some((reference, ManifestRequest { url, accept }))
        },
        None => None,
    }
}

/// Position of the first manifest for the architecture `arch`, or the
/// number of manifests where none is for it.
pub open spec fn platform_index(manifests: Seq<ImagePlatformManifest>, arch: Text) -> int
    decreases manifests.len(),
{
    if manifests.len() == 0 {
        0
    } else if manifests[0].platform.architecture@ == arch {
        0
    } else {
        1 + platform_index(manifests.drop_first(), arch)
    }
}

/// `platform_index` returns the first position whose manifest is for `arch`.
pub proof fn lemma_platform_index(manifests: Seq<ImagePlatformManifest>, arch: Text)
    ensures
        0 <= platform_index(manifests, arch) <= manifests.len(),
        platform_index(manifests, arch) < manifests.len() ==> manifests[platform_index(
            manifests,
            arch,
        )].platform.architecture@ == arch,
        forall|j: int|
            0 <= j < platform_index(manifests, arch) ==> (
            #[trigger] manifests[j]).platform.architecture@ != arch,
    decreases manifests.len(),
{
    if manifests.len() > 0 && manifests[0].platform.architecture@ != arch {
        let rest = manifests.drop_first();
        lemma_platform_index(rest, arch);
        assert forall|j: int| 0 <= j < platform_index(manifests, arch) implies (
        #[trigger] manifests[j]).platform.architecture@ != arch by {
            if j > 0 {
                assert(manifests[j] == rest[j - 1]);
            }
        }
    }
}

/// A position whose manifest is for `arch`, with none for it before, is what
/// `platform_index` returns.
pub proof fn lemma_platform_index_unique(
    manifests: Seq<ImagePlatformManifest>,
    arch: Text,
    at: int,
)
    requires
        0 <= at <= manifests.len(),
        at < manifests.len() ==> manifests[at].platform.architecture@ == arch,
        forall|j: int| 0 <= j < at ==> (#[trigger] manifests[j]).platform.architecture@ != arch,
    ensures
        platform_index(manifests, arch) == at,
    decreases manifests.len(),
{
    if at > 0 {
        let rest = manifests.drop_first();
        assert(manifests[0].platform.architecture@ != arch);
        assert forall|j: int| 0 <= j < at - 1 implies (
        #[trigger] rest[j]).platform.architecture@ != arch by {
            assert(rest[j] == manifests[j + 1]);
        }
        lemma_platform_index_unique(rest, arch, at - 1);
    }
}

/// What the second step of a pull comes to.
pub enum Resolution {
    /// Ask for the manifest at `url`, accepting `kind`; it is entry `index`
    /// of the list.
    Request { index: int, url: Text, kind: MediaType },
    /// Give up.
    Refused(Error),
}

/// The decision on a manifest list: its schema version must be 2; the first
/// entry for the running architecture, under the registries' name for it, is
/// chosen; its media type must be one of the two known ones.
pub open spec fn resolve_spec(
    registry: Text,
    repository: Text,
    list: ImageManifestList,
    arch: Text,
) -> Resolution {
    let index = platform_index(list.manifests@, docker_arch_spec(arch));
    if list.schema_version != 2 {
        Resolution::Refused(Error::UnsupportedManifestSchema)
    } else if index >= list.manifests@.len() {
        Resolution::Refused(Error::NoMatchingPlatform)
    } else {
        match media_type_of(list.manifests@[index].media_type@) {
            Some(kind) => Resolution::Request {
                index,
                url: manifest_url_spec(registry, repository, list.manifests@[index].digest@),
                kind,
            },
            None => Resolution::Refused(Error::UnsupportedMediaType),
        }
    }
}

/// The second step of a pull: chooses the manifest for the architecture
/// `arch` from the manifest list and asks the registry for it by its digest.
///
/// Fails with `UnsupportedManifestSchema` where the schema version of the
/// list is not 2, with `NoMatchingPlatform` where no entry is for the
/// architecture, and with `UnsupportedMediaType` where the chosen entry is
/// neither a distribution nor an OCI manifest.
pub fn resolve(
    registry: &str,
    image: &ImageReference,
    list: &ImageManifestList,
    arch: &str,
) -> (r: Result<ManifestRequest, Error>)
    ensures
        match resolve_spec(registry@, image@.repository, *list, arch@) {
            Resolution::Request { index, url, kind } => r matches Ok(request) && request.url@
                == url && request.accept@ == kind.name_spec(),
            Resolution::Refused(e) => r matches Err(found) && found == e,
        },
{
    let wanted = docker_arch(arch);
    if list.schema_version != 2 {
        return Err(Error::UnsupportedManifestSchema);
    }
    let mut i: usize = 0;
    while i < list.manifests.len()
        invariant
            i <= list.manifests@.len(),
            list.schema_version == 2,
            wanted@ == docker_arch_spec(arch@),
            forall|j: int|
                0 <= j < i ==> (#[trigger] list.manifests@[j]).platform.architecture@ != wanted@,
        decreases list.manifests@.len() - i,
    {
        let entry = &list.manifests[i];
        if str_eq(entry.platform.architecture.as_str(), wanted) {
            proof {
                lemma_platform_index_unique(list.manifests@, wanted@, i as int);
            }
            return match MediaType::from_name(entry.media_type.as_str()) {
                Some(kind) => {
                    let url = manifest_url(
                        registry,
                        image.repository().as_str(),
                        entry.digest.as_str(),
                    );
                    Ok(ManifestRequest { url, accept: kind.name().to_owned() })
                },
                None => Err(Error::UnsupportedMediaType),
            };
        }
        i += 1;
    }
    proof {
        lemma_platform_index_unique(list.manifests@, wanted@, i as int);
    }
    Err(Error::NoMatchingPlatform)
}

/// The name of the file that caches layer `index` of `repository`, whose
/// content is `digest`: the two parts of the repository around its first
/// slash, the index and the digest, with dots between them, and `.tar.gz`.
pub open spec fn layer_file_name_spec(repository: Text, index: nat, digest: Text) -> Text
    recommends
        has_char(repository, '/'),
{
    let parts = split_once(repository, '/').unwrap();
    parts.0 + "."@ + parts.1 + "."@ + decimal(index) + "."@ + digest + ".tar.gz"@
}

/// The file that caches layer `index` of `repository`.
pub open spec fn layer_cache_path_spec(repository: Text, index: nat, digest: Text) -> Text {
    packed_layer_dir_spec() + "/"@ + layer_file_name_spec(repository, index, digest)
}

/// The file under which a layer is written while it is downloaded. It takes
/// the place of the cache file only once it is complete.
pub open spec fn layer_partial_path_spec(repository: Text, index: nat, digest: Text) -> Text {
    layer_cache_path_spec(repository, index, digest) + ".part"@
}

/// The directory into which layer `index` of the container is unpacked.
pub open spec fn layer_dir_spec(container: Text, index: nat) -> Text {
    overlay_fs_lower_dir_spec(container) + "/layer."@ + decimal(index)
}

/// The file that caches layer `index` of the image, whose content is `digest`.
pub fn layer_cache_path(image: &ImageReference, index: usize, digest: &str) -> (r: String)
    ensures
        r@ == layer_cache_path_spec(image@.repository, index as nat, digest@),
{
    let repository = image.repository();
    let mut r = packed_layer_dir();
    r.append("/");
    match split_at_first(repository.as_str(), '/') {
        Some((left, right)) => {
            r.append(left.as_str());
            r.append(".");
            r.append(right.as_str());
        },
        None => {
            proof {
                lemma_find_from(repository@, '/', 0);
            }
        },
    }
    r.append(".");
    let number = usize_to_decimal(index);
    r.append(number.as_str());
    r.append(".");
    r.append(digest);
    r.append(".tar.gz");
    proof {
        assert(r@ =~= layer_cache_path_spec(image@.repository, index as nat, digest@));
    }
    r
}

/// The directory into which layer `index` of the container is unpacked.
pub fn layer_dir(container: &str, index: usize) -> (r: String)
    ensures
        r@ == layer_dir_spec(container@, index as nat),
{
    let mut r = overlay_fs_lower_dir(container);
    r.append("/layer.");
    let number = usize_to_decimal(index);
    r.append(number.as_str());
    r
}

/// Two layers of a container are unpacked into different directories.
pub proof fn lemma_layer_dirs_differ(container: Text, i: nat, j: nat)
    requires
        i != j,
    ensures
        layer_dir_spec(container, i) != layer_dir_spec(container, j),
{
    lemma_decimal_round_trip(i);
    lemma_decimal_round_trip(j);
    lemma_same_prefix(overlay_fs_lower_dir_spec(container) + "/layer."@, decimal(i), decimal(j));
}

/// How to get a layer.
#[derive(Debug, Clone, PartialEq, Eq)]
pub enum LayerFetch {
    /// The cache holds the layer at `path`: nothing is asked of the registry.
    Cached { path: String },
    /// Get the blob at `url`, write it to `partial`, and move that file to
    /// `path` once it is complete.
    Download { url: String, partial: String, path: String },
}

/// Decides how to get layer `index` of the image, whose content is `digest`.
///
/// `cached` says whether the file of `layer_cache_path` exists. If it does,
/// it is the layer: nothing is downloaded and nothing is checked again. If
/// it does not, the blob is downloaded to a file beside it that is moved
/// into place when it is complete, so that a download that broke off never
/// stands for a layer.
pub fn pull_layer(
    registry: &str,
    image: &ImageReference,
    index: usize,
    digest: &str,
    cached: bool,
) -> (r: LayerFetch)
    ensures
        match r {
            LayerFetch::Cached { path } => cached && path@ == layer_cache_path_spec(
                image@.repository,
                index as nat,
                digest@,
            ),
            LayerFetch::Download { url, partial, path } => !cached && url@ == blob_url_spec(
                registry@,
                image@.repository,
                digest@,
            ) && path@ == layer_cache_path_spec(image@.repository, index as nat, digest@)
                && partial@ == layer_partial_path_spec(
                image@.repository,
                index as nat,
                digest@,
            ),
        },
{
    let path = layer_cache_path(image, index, digest);
    if cached {
        LayerFetch::Cached { path }
    } else {
        let url = blob_url(registry, image.repository().as_str(), digest);
        let partial = concat2(path.as_str(), ".part");
        LayerFetch::Download { url, partial, path }
    }
}

/// Decides on a download that has ended: `status` is the status of the reply
/// to the blob request, `stored` says whether the whole body was written to
/// the partial file.
///
/// Only a reply in 2xx whose body was stored in full is a layer: the partial
/// file then takes its place in the cache. Anything else fails the pull with
/// `LayerFetchFailed`, and the partial file is thrown away.
pub fn download(status: u16, stored: bool) -> (r: Result<(), Error>)
    ensures
        r is Ok <==> is_success(status) && stored,
        r matches Err(e) ==> e == Error::LayerFetchFailed,
{
    if 200 <= status && status < 300 && stored {
        Ok(())
    } else {
        Err(Error::LayerFetchFailed)
    }
}

/// One step of the assembly of the layers of a container.
#[derive(Debug, Clone, PartialEq, Eq)]
pub enum LayerStep {
    /// Remove the directory `dir` and all that is in it. The assembly goes
    /// on where there is no such directory.
    Clear { dir: String },
    /// Make the directory `dir` and the directories above it.
    Create { dir: String },
    /// Unless the file `archive` exists, download layer `index` with the
    /// content `digest` to it: see [`pull_layer`].
    Fetch { index: usize, digest: String, archive: String },
    /// Unpack the gzipped archive `archive` into the directory `dir`.
    Unpack { archive: String, dir: String },
}

/// A step of the assembly in specifications.
pub enum LayerStepView {
    Clear { dir: Text },
    Create { dir: Text },
    Fetch { index: nat, digest: Text, archive: Text },
    Unpack { archive: Text, dir: Text },
}

impl View for LayerStep {
    type V = LayerStepView;

    open spec fn view(&self) -> LayerStepView {
        match self {
            LayerStep::Clear { dir } => LayerStepView::Clear { dir: dir@ },
            LayerStep::Create { dir } => LayerStepView::Create { dir: dir@ },
            LayerStep::Fetch { index, digest, archive } => LayerStepView::Fetch {
                index: *index as nat,
                digest: digest@,
                archive: archive@,
            },
            LayerStep::Unpack { archive, dir } => LayerStepView::Unpack {
                archive: archive@,
                dir: dir@,
            },
        }
    }
}

/// The views of a vector of steps, in order.
pub open spec fn layer_step_views(steps: Seq<LayerStep>) -> Seq<LayerStepView> {
    Seq::new(steps.len(), |i: int| steps[i]@)
}

/// The arguments of an overlay mount.
#[derive(Debug, Clone, PartialEq, Eq)]
pub struct OverlaySpec {
    /// The unpacked layers in the order of the manifest; 0 is the base layer.
    pub lower_dirs: Vec<String>,
    /// The directory that takes what the container writes.
    pub upper_dir: String,
    /// The directory that the kernel works in.
    pub work_dir: String,
}

/// The options of an overlay mount: the lower directories joined by colons
/// in their order, the upper directory and the work directory.
pub open spec fn overlay_options_spec(
    lower_dirs: Seq<Text>,
    upper_dir: Text,
    work_dir: Text,
) -> Text {
    "lowerdir="@ + join(lower_dirs, ":"@) + ",upperdir="@ + upper_dir + ",workdir="@ + work_dir
}

impl OverlaySpec {
    /// The options of the overlay mount.
    pub fn options(&self) -> (r: String)
        ensures
            r@ == overlay_options_spec(views(self.lower_dirs@), self.upper_dir@, self.work_dir@),
    {
        let lower = join_strings(&self.lower_dirs, ":");
        let mut r = concat2("lowerdir=", lower.as_str());
        r.append(",upperdir=");
        r.append(self.upper_dir.as_str());
        r.append(",workdir=");
        r.append(self.work_dir.as_str());
        r
    }
}

/// The root file system of a container as a manifest describes it: the
/// steps that bring its layers into place, and the overlay that the unpacked
/// layers form.
#[derive(Debug, Clone, PartialEq, Eq)]
pub struct RootFsPlan {
    /// The steps of the assembly, in the order in which they are taken.
    pub steps: Vec<LayerStep>,
    /// The overlay of the unpacked layers.
    pub overlay: OverlaySpec,
}

/// The directories of the first `n` layers of a container, the base layer
/// first.
pub open spec fn layer_dirs_spec(container: Text, n: nat) -> Seq<Text> {
    Seq::new(n, |i: int| layer_dir_spec(container, i as nat))
}

/// The steps that bring layer `index`, whose content is `digest`, into
/// place: its directory is cleared and made anew, its archive is fetched
/// unless it is cached, and the archive is unpacked into the directory.
pub open spec fn layer_steps(repository: Text, container: Text, index: nat, digest: Text) -> Seq<
    LayerStepView,
> {
    seq![
        LayerStepView::Clear { dir: layer_dir_spec(container, index) },
        LayerStepView::Create { dir: layer_dir_spec(container, index) },
        LayerStepView::Fetch {
            index,
            digest,
            archive: layer_cache_path_spec(repository, index, digest),
        },
        LayerStepView::Unpack {
            archive: layer_cache_path_spec(repository, index, digest),
            dir: layer_dir_spec(container, index),
        },
    ]
}

/// The steps that bring the layers with these digests into place: those of
/// the base layer first, then those of the layer above it, and so on.
pub open spec fn assembly_steps(repository: Text, container: Text, digests: Seq<Text>) -> Seq<
    LayerStepView,
>
    decreases digests.len(),
{
    if digests.len() == 0 {
        Seq::empty()
    } else {
        assembly_steps(repository, container, digests.drop_last()) + layer_steps(
            repository,
            container,
            (digests.len() - 1) as nat,
            digests.last(),
        )
    }
}

/// The layers are unpacked in the order of the manifest: the four steps of
/// layer `i` stand at the positions from `4 * i` on, so all steps of a layer
/// come before the steps of the layers above it.
pub proof fn lemma_assembly_in_manifest_order(
    repository: Text,
    container: Text,
    digests: Seq<Text>,
    i: int,
)
    requires
        0 <= i < digests.len(),
    ensures
        assembly_steps(repository, container, digests).len() == 4 * digests.len(),
        assembly_steps(repository, container, digests).subrange(4 * i, 4 * i + 4) == layer_steps(
            repository,
            container,
            i as nat,
            digests[i],
        ),
    decreases digests.len(),
{
    let all = assembly_steps(repository, container, digests);
    let front = digests.drop_last();
    lemma_assembly_len(repository, container, digests);
    lemma_assembly_len(repository, container, front);
    if i < front.len() {
        lemma_assembly_in_manifest_order(repository, container, front, i);
        assert(all.subrange(4 * i, 4 * i + 4) =~= assembly_steps(
            repository,
            container,
            front,
        ).subrange(4 * i, 4 * i + 4));
        assert(front[i] == digests[i]);
    } else {
        assert(all.subrange(4 * i, 4 * i + 4) =~= layer_steps(
            repository,
            container,
            i as nat,
            digests[i],
        ));
    }
}

/// The assembly takes four steps for each layer.
pub proof fn lemma_assembly_len(repository: Text, container: Text, digests: Seq<Text>)
    ensures
        assembly_steps(repository, container, digests).len() == 4 * digests.len(),
    decreases digests.len(),
{
    if digests.len() > 0 {
        lemma_assembly_len(repository, container, digests.drop_last());
    }
}

/// The digests of the layers, in order.
pub open spec fn layer_digests(layers: Seq<ImageLayer>) -> Seq<Text> {
    Seq::new(layers.len(), |i: int| layers[i].digest@)
}

/// The third step of a pull: lays out the root file system of the container
/// from the manifest of the image.
///
/// The layers are brought into place in the order of the manifest, the base
/// layer first, and the lower directories of the overlay stand in that same
/// order: lower directory `i` is the directory of layer `i`.
pub fn handle_manifest(image: &ImageReference, manifest: &ImageManifest, container: &str) -> (r:
    RootFsPlan)
    ensures
        layer_step_views(r.steps@) == assembly_steps(
            image@.repository,
            container@,
            layer_digests(manifest.layers@),
        ),
        views(r.overlay.lower_dirs@) == layer_dirs_spec(container@, manifest.layers@.len()),
        r.overlay.upper_dir@ == overlay_fs_upper_dir_spec(container@),
        r.overlay.work_dir@ == overlay_fs_work_dir_spec(container@),
{
    let mut steps: Vec<LayerStep> = Vec::new();
    let mut lower_dirs: Vec<String> = Vec::new();
    let n = manifest.layers.len();
    let ghost digests = layer_digests(manifest.layers@);
    let mut i: usize = 0;
    assert(digests.take(0) =~= Seq::<Text>::empty());
    assert(layer_step_views(steps@) =~= Seq::<LayerStepView>::empty());
    assert(views(lower_dirs@) =~= layer_dirs_spec(container@, 0));
    while i < n
        invariant
            i <= n,
            n == manifest.layers@.len(),
            digests == layer_digests(manifest.layers@),
            layer_step_views(steps@) == assembly_steps(
                image@.repository,
                container@,
                digests.take(i as int),
            ),
            views(lower_dirs@) == layer_dirs_spec(container@, i as nat),
        decreases n - i,
    {
        let digest = manifest.layers[i].digest.clone();
        let archive = layer_cache_path(image, i, digest.as_str());
        let ghost steps_before = layer_step_views(steps@);
        let ghost dirs_before = views(lower_dirs@);
        proof {
            assert(digests.take(i + 1).drop_last() =~= digests.take(i as int));
            assert(digests.take(i + 1).last() == digest@);
        }
        steps.push(LayerStep::Clear { dir: layer_dir(container, i) });
        steps.push(LayerStep::Create { dir: layer_dir(container, i) });
        steps.push(LayerStep::Fetch { index: i, digest, archive: archive.clone() });
        steps.push(LayerStep::Unpack { archive, dir: layer_dir(container, i) });
        lower_dirs.push(layer_dir(container, i));
        proof {
            assert(layer_step_views(steps@) =~= steps_before + layer_steps(
                image@.repository,
                container@,
                i as nat,
                digests[i as int],
            ));
            assert(views(lower_dirs@) =~= dirs_before.push(layer_dir_spec(container@, i as nat)));
            assert(dirs_before.push(layer_dir_spec(container@, i as nat)) =~= layer_dirs_spec(
                container@,
                (i + 1) as nat,
            ));
        }
        i += 1;
    }
    assert(digests.take(n as int) =~= digests);
    let overlay = OverlaySpec {
        lower_dirs,
        upper_dir: overlay_fs_upper_dir(container),
        work_dir: overlay_fs_work_dir(container),
    };
    RootFsPlan { steps, overlay }
}

} // verus!
