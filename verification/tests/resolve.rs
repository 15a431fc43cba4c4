use techxt::resolve::DirectoryResolver;

fn resolver_at(root: &str) -> DirectoryResolver {
    DirectoryResolver::new(root.as_bytes(), true, b"/").expect("a directory")
}

#[test]
fn a_file_inside_the_directory_is_contained() {
    let resolver = resolver_at("/srv/paper");
    assert!(resolver.contains(b"/srv/paper/intro.tex"));
    assert!(resolver.contains(b"/srv/paper/chapters/one.tex"));
}

#[test]
fn a_sibling_sharing_the_name_prefix_is_not() {
    let resolver = resolver_at("/srv/paper");
    assert!(!resolver.contains(b"/srv/paper-evil/secret.tex"));
    assert!(!resolver.contains(b"/srv/paperwork/secret.tex"));
}

#[test]
fn the_directory_itself_and_its_parents_are_not_contained() {
    let resolver = resolver_at("/srv/paper");
    assert!(!resolver.contains(b"/srv/paper"));
    assert!(!resolver.contains(b"/srv"));
    assert!(!resolver.contains(b"/etc/passwd"));
}

#[test]
fn a_root_directory_does_not_grow_a_second_separator() {
    let resolver = resolver_at("/");
    assert!(resolver.contains(b"/etc/passwd"));
    assert!(resolver.contains(b"/paper/intro.tex"));
    // The one case where the root itself passes the prefix test, since the separator
    // *is* the root.
    assert!(resolver.contains(b"/"));
}

#[test]
fn a_path_that_is_not_a_directory_is_refused() {
    assert!(DirectoryResolver::new(b"/srv/paper.tex", false, b"/").is_none());
    assert_eq!(resolver_at("/srv/paper/").root(), b"/srv/paper/");
    assert!(resolver_at("/srv/paper/").contains(b"/srv/paper/a.tex"));
}
