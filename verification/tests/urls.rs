use mirua::pom::error::ResolveError;
use mirua::pom::structure::{default_plugin_group_id, Dependency, Parent};
use mirua::pom::{
    build_maven_base_url, build_maven_jar_url, build_maven_pom_url, DependencyInfo, MAVEN_URL,
};

#[test]
fn pom_url_follows_repository_layout() {
    assert_eq!(
        build_maven_pom_url("org.example.foo", "bar", "1.2.3"),
        format!("{}/org/example/foo/bar/1.2.3/bar-1.2.3.pom", MAVEN_URL)
    );
}

#[test]
fn jar_url_differs_from_pom_url_in_extension_only() {
    let pom = build_maven_pom_url("org.example.foo", "bar", "1.2.3");
    let jar = build_maven_jar_url("org.example.foo", "bar", "1.2.3");
    assert_eq!(jar, format!("{}/org/example/foo/bar/1.2.3/bar-1.2.3.jar", MAVEN_URL));
    assert_eq!(pom.strip_suffix(".pom"), jar.strip_suffix(".jar"));
}

#[test]
fn exact_pom_url() {
    assert_eq!(
        build_maven_pom_url("net.mamoe", "mirai-core", "1.2.2"),
        "https://maven.aliyun.com/repository/public/net/mamoe/mirai-core/1.2.2/mirai-core-1.2.2.pom"
    );
}

#[test]
fn base_url_has_no_extension() {
    assert_eq!(
        build_maven_base_url("a.b", "c", "1"),
        "https://maven.aliyun.com/repository/public/a/b/c/1/c-1"
    );
}

#[test]
fn group_without_dots_is_one_directory() {
    assert_eq!(
        build_maven_jar_url("junit", "junit", "4.13"),
        "https://maven.aliyun.com/repository/public/junit/junit/4.13/junit-4.13.jar"
    );
}

#[test]
fn only_the_group_has_its_dots_replaced() {
    assert_eq!(
        build_maven_pom_url("a.b", "c.d", "1.0"),
        "https://maven.aliyun.com/repository/public/a/b/c.d/1.0/c.d-1.0.pom"
    );
}

#[test]
fn empty_group_segments_are_kept() {
    assert_eq!(
        build_maven_pom_url("a..b.", "c", "1"),
        "https://maven.aliyun.com/repository/public/a//b//c/1/c-1.pom"
    );
}

#[test]
fn non_ascii_coordinates_pass_through() {
    assert_eq!(
        build_maven_pom_url("组.织", "工件", "1"),
        "https://maven.aliyun.com/repository/public/组/织/工件/1/工件-1.pom"
    );
}

#[test]
fn dependency_urls_need_a_version() {
    let mut d = Dependency::default();
    d.group_id = "org.example.foo".to_string();
    d.artifact_id = "bar".to_string();
    let missing = ResolveError::MissingVersion {
        group_id: "org.example.foo".to_string(),
        artifact_id: "bar".to_string(),
    };
    assert_eq!(d.to_pom_url(), Err(missing.clone()));
    assert_eq!(d.to_jar_url(), Err(missing));
    d.version = Some("1.2.3".to_string());
    assert_eq!(
        d.to_pom_url(),
        Ok("https://maven.aliyun.com/repository/public/org/example/foo/bar/1.2.3/bar-1.2.3.pom"
            .to_string())
    );
    assert_eq!(
        d.to_jar_url(),
        Ok("https://maven.aliyun.com/repository/public/org/example/foo/bar/1.2.3/bar-1.2.3.jar"
            .to_string())
    );
}

#[test]
fn parent_urls_need_a_version() {
    let mut p = Parent {
        artifact_id: "base".to_string(),
        group_id: "org.p".to_string(),
        version: None,
    };
    let missing = ResolveError::MissingVersion {
        group_id: "org.p".to_string(),
        artifact_id: "base".to_string(),
    };
    assert_eq!(p.to_pom_url(), Err(missing.clone()));
    assert_eq!(p.to_jar_url(), Err(missing));
    p.version = Some("2.0".to_string());
    assert_eq!(
        p.to_pom_url(),
        Ok("https://maven.aliyun.com/repository/public/org/p/base/2.0/base-2.0.pom".to_string())
    );
    assert_eq!(
        p.to_jar_url(),
        Ok("https://maven.aliyun.com/repository/public/org/p/base/2.0/base-2.0.jar".to_string())
    );
}

#[test]
fn dependency_info_keeps_its_parts() {
    let info = DependencyInfo::new("g".to_string(), "a".to_string());
    assert_eq!(info.group_id, "g");
    assert_eq!(info.artifact_id, "a");
    assert_eq!(info, DependencyInfo { group_id: "g".to_string(), artifact_id: "a".to_string() });
}

#[test]
fn plugins_default_to_the_maven_group() {
    assert_eq!(default_plugin_group_id(), "org.apache.maven.plugins");
}
