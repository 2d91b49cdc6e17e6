use echo_operator::url::template_path;

#[test]
fn test_no_segments() {
    let path = "/";
    let base_path = None;

    let result = template_path(path, base_path);
    assert_eq!(result, "/");
}

#[test]
fn test_core_group_with_name() {
    let path = "/api/v1/pods/mypod";
    let base_path = None;

    let result = template_path(path, base_path);
    assert_eq!(result, "/api/v1/pods/{name}");
}

#[test]
fn test_named_group_with_namespace() {
    let path = "/apis/apps/v1/namespaces/mynamespace/deployments/mydeployment";
    let base_path = None;

    let result = template_path(path, base_path);
    assert_eq!(
        result,
        "/apis/apps/v1/namespaces/{namespace}/deployments/{name}"
    );
}

#[test]
fn test_with_finalize_subresource() {
    let path = "/apis/apps/v1/namespaces/mynamespace/deployments/mydeployment/finalize";
    let base_path = None;

    let result = template_path(path, base_path);
    assert_eq!(
        result,
        "/apis/apps/v1/namespaces/{namespace}/deployments/{name}/finalize"
    );
}

#[test]
fn test_with_status_subresource() {
    let path = "/apis/apps/v1/namespaces/mynamespace/deployments/mydeployment/status";
    let base_path = None;

    let result = template_path(path, base_path);
    assert_eq!(
        result,
        "/apis/apps/v1/namespaces/{namespace}/deployments/{name}/status"
    );
}

#[test]
fn test_prefix_fallback() {
    let path = "/unknown/group/resource";
    let base_path = None;

    let result = template_path(path, base_path);
    assert_eq!(result, "/{prefix}");
}

#[test]
fn test_trimmed_base_path() {
    let path = "/base/path/api/v1/pods/mypod";
    let base_path = Some("/base/path");

    let result = template_path(path, base_path);
    assert_eq!(result, "/base/path/api/v1/pods/{name}");
}

#[test]
fn test_full_path_with_namespace_and_name() {
    let path = "/some/base/url/path/api/v1/namespaces/ns/r1/nm?p0=v0";
    let base_path = Some("/some/base/url/path");

    let result = template_path(path, base_path);
    assert_eq!(
        result,
        "/some/base/url/path/api/v1/namespaces/{namespace}/r1/{name}"
    );
}

#[test]
fn test_full_path_without_namespace_and_name() {
    let path = "/some/base/url/path/api/v1/r1";
    let base_path = Some("/some/base/url/path");

    let result = template_path(path, base_path);
    assert_eq!(result, "/some/base/url/path/api/v1/r1");
}

#[test]
fn test_custom_prefix_in_url() {
    let path = "/some/base/url/path/pre1/v1/namespaces/ns/r1/nm?p0=v0";
    let base_path = Some("/some/base/url/path");

    let result = template_path(path, base_path);
    assert_eq!(result, "/{prefix}");
}

#[test]
fn test_full_path_without_namespace_or_name() {
    let path = "/some/base/path";
    let base_path = Some("/some/base/path");

    let result = template_path(path, base_path);
    assert_eq!(result, "/some/base/path");
}

#[test]
fn test_path_with_invalid_path() {
    let path = "/invalid/path/v1/namespaces/ns/r1/nm?p0=v0";
    let base_path = None;

    let result = template_path(path, base_path);
    assert_eq!(result, "/{prefix}");
}

#[test]
fn template_keeps_a_group_root_as_it_is() {
    assert_eq!(template_path("/apis/apps/v1", None), "/apis/apps/v1");
    assert_eq!(template_path("/api/v1/pods", None), "/api/v1/pods");
}

#[test]
fn template_names_the_object_before_a_subresource() {
    assert_eq!(
        template_path("/api/v1/nodes/n1/status", None),
        "/api/v1/nodes/{name}/status"
    );
    assert_eq!(
        template_path("/api/v1/namespaces/ns/pods", None),
        "/api/v1/namespaces/{namespace}/pods"
    );
}

#[test]
fn template_sets_every_leading_copy_of_the_base_aside() {
    assert_eq!(
        template_path("/b/b/api/v1/pods/p", Some("/b")),
        "/b/api/v1/pods/{name}"
    );
    assert_eq!(
        template_path("/b//api/v1/pods/p", Some("/b/")),
        "/b/api/v1/pods/{name}"
    );
    assert_eq!(
        template_path("/api/v1/pods/p", Some("")),
        "/api/v1/pods/{name}"
    );
}

#[test]
fn template_ignores_a_base_that_the_path_does_not_start_with() {
    assert_eq!(
        template_path("/api/v1/pods/p", Some("/other")),
        "/api/v1/pods/{name}"
    );
    assert_eq!(template_path("//api///v1//", None), "//api///v1//");
}
