use mydocker::mounting::{mount, mount_layers, mount_start, MountAction};
use mydocker::pull_image::{
    download, handle_manifest, pull, pull_layer, resolve, ImageConfig, ImageLayer, ImageManifest,
    ImageManifestList, ImagePlatform, ImagePlatformManifest, LayerFetch, LayerStep,
    MEDIA_TYPE_DISTRIBUTION, MEDIA_TYPE_MANIFEST_LIST, MEDIA_TYPE_OCI,
};
use mydocker::token_auth::{
    pass_token_auth, pass_token_auth_start, AuthAction, Reply, TokenResponse,
};

const DEFAULT_REGISTRY: &str = "https://registry.hub.docker.com";

fn platform(arch: &str) -> ImagePlatform {
    ImagePlatform {
        architecture: arch.to_string(),
        os: "linux".to_string(),
        os_version: None,
        os_features: None,
        variant: None,
        features: None,
    }
}

fn manifests_of(media_type: &str) -> ImageManifestList {
    let entry = |arch: &str| ImagePlatformManifest {
        media_type: media_type.to_string(),
        size: 610,
        digest: format!("sha256:{}", arch),
        platform: platform(arch),
    };
    ImageManifestList {
        schema_version: 2,
        media_type: MEDIA_TYPE_MANIFEST_LIST.to_string(),
        manifests: vec![entry("amd64"), entry("arm64"), entry("i386")],
    }
}

fn image_of(media_type: &str, digests: &[&str]) -> ImageManifest {
    ImageManifest {
        schema_version: 2,
        media_type: media_type.to_string(),
        config: ImageConfig {
            media_type: "application/vnd.oci.image.config.v1+json".to_string(),
            size: 2,
            digest: "sha256:config".to_string(),
        },
        layers: digests
            .iter()
            .map(|digest| ImageLayer {
                media_type: "application/vnd.oci.image.layer.v1.tar+gzip".to_string(),
                size: 3,
                digest: digest.to_string(),
                urls: None,
            })
            .collect(),
    }
}

/// Pulls `image` from a registry that answers with these documents, into a
/// cache that holds nothing, and returns the requests that were made and the
/// options of the overlay that was mounted at the first try.
fn pull_from_canned_registry(
    image: &str,
    list: &ImageManifestList,
    manifest: &ImageManifest,
) -> (Vec<String>, String) {
    let mut requests = Vec::new();
    let (reference, list_request) = pull(DEFAULT_REGISTRY, image).unwrap();
    requests.push(list_request.url.clone());
    let manifest_request = resolve(DEFAULT_REGISTRY, &reference, list, "x86_64").unwrap();
    requests.push(manifest_request.url.clone());
    let plan = handle_manifest(&reference, manifest, "test");
    let mut cache: Vec<String> = Vec::new();
    let mut unpacked: Vec<String> = Vec::new();
    for step in plan.steps.iter() {
        match step {
            LayerStep::Clear { .. } | LayerStep::Create { .. } => {}
            LayerStep::Fetch { index, digest, archive } => {
                let cached = cache.contains(archive);
                match pull_layer(DEFAULT_REGISTRY, &reference, *index, digest, cached) {
                    LayerFetch::Cached { .. } => {}
                    LayerFetch::Download { url, path, .. } => {
                        requests.push(url);
                        download(200, true).unwrap();
                        cache.push(path);
                    }
                }
            }
            LayerStep::Unpack { archive, dir } => {
                assert!(cache.contains(archive));
                unpacked.push(dir.clone());
            }
        }
    }
    assert_eq!(unpacked, plan.overlay.lower_dirs);
    let (action, state) = mount_start();
    assert_eq!(action, MountAction::MountOverlay);
    let request = mount_layers("test", &plan.overlay.lower_dirs);
    assert_eq!(mount(state, true), (MountAction::Done, None));
    (requests, request.data.unwrap())
}

#[test]
fn test_pull_distribution() {
    let image = "busybox:latest";
    let (requests, options) = pull_from_canned_registry(
        image,
        &manifests_of(MEDIA_TYPE_DISTRIBUTION),
        &image_of(MEDIA_TYPE_DISTRIBUTION, &["sha256:one"]),
    );
    assert_eq!(
        requests,
        [
            "https://registry.hub.docker.com/v2/library/busybox/manifests/latest",
            "https://registry.hub.docker.com/v2/library/busybox/manifests/sha256:amd64",
            "https://registry.hub.docker.com/v2/library/busybox/blobs/sha256:one",
        ]
    );
    assert_eq!(
        options,
        "lowerdir=/tmp/mydocker/containers/test/layers/lower/layer.0,upperdir=/tmp/mydocker/containers/test/layers/writable/upper,workdir=/tmp/mydocker/containers/test/layers/writable/work"
    );
}

#[test]
fn test_pull_oci() {
    let image = "ubuntu:latest";
    let (requests, options) = pull_from_canned_registry(
        image,
        &manifests_of(MEDIA_TYPE_OCI),
        &image_of(MEDIA_TYPE_OCI, &["sha256:base", "sha256:top"]),
    );
    assert_eq!(
        requests,
        [
            "https://registry.hub.docker.com/v2/library/ubuntu/manifests/latest",
            "https://registry.hub.docker.com/v2/library/ubuntu/manifests/sha256:amd64",
            "https://registry.hub.docker.com/v2/library/ubuntu/blobs/sha256:base",
            "https://registry.hub.docker.com/v2/library/ubuntu/blobs/sha256:top",
        ]
    );
    assert_eq!(
        options,
        "lowerdir=/tmp/mydocker/containers/test/layers/lower/layer.0:/tmp/mydocker/containers/test/layers/lower/layer.1,upperdir=/tmp/mydocker/containers/test/layers/writable/upper,workdir=/tmp/mydocker/containers/test/layers/writable/work"
    );
}

#[test]
fn test_pass_token_auth() {
    let url = "https://registry.hub.docker.com/v2/";
    let challenge = r#"Bearer realm="https://auth.docker.io/token",service="registry.docker.io""#;
    let mut sent: Vec<(String, Option<String>)> = Vec::new();
    let mut last_status = 0u16;
    let (mut action, first) = pass_token_auth_start();
    let mut state = Some(first);
    loop {
        let reply = match action {
            AuthAction::Send { authorization } => {
                let status = if authorization.as_deref() == Some("Bearer opaque") { 200 } else { 401 };
                sent.push((url.to_string(), authorization));
                last_status = status;
                Reply { status, challenge: Some(challenge.to_string()), token: None }
            }
            AuthAction::RequestToken { url } => {
                sent.push((url, None));
                Reply {
                    status: 200,
                    challenge: None,
                    token: Some(TokenResponse {
                        token: "opaque".to_string(),
                        access_token: "opaque".to_string(),
                        expires_in: 300,
                        issued_at: "2024-01-01T00:00:00Z".to_string(),
                    }),
                }
            }
            AuthAction::Return => break,
            AuthAction::Fail(error) => panic!("{}", error.message()),
        };
        let step = pass_token_auth(state.unwrap(), &reply);
        action = step.0;
        state = step.1;
    }
    assert!((200..300).contains(&last_status));
    assert_eq!(
        sent,
        [
            (url.to_string(), None),
            ("https://auth.docker.io/token?service=registry.docker.io".to_string(), None),
            (url.to_string(), Some("Bearer opaque".to_string())),
        ]
    );
}
