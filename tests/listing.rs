use dir_index::listing::{parent_dir, readme_description, template_dirs, template_glob, template_step, TemplateStep};

#[test]
fn parents() {
    assert_eq!(parent_dir("/a/b"), Some("/a".to_string()));
    assert_eq!(parent_dir("/a"), Some("/".to_string()));
    assert_eq!(parent_dir("/"), None);
    assert_eq!(parent_dir("a"), None);
}

#[test]
fn dirs_searched_nearest_first() {
    let dirs = template_dirs("/root", "/root/sub/deep/file");
    assert_eq!(dirs, vec!["/root/sub/deep/file", "/root/sub/deep", "/root/sub", "/root"]);
}

#[test]
fn dirs_stop_at_filesystem_root() {
    assert_eq!(template_dirs("/", "/a"), vec!["/a", "/"]);
}

#[test]
fn dirs_outside_root_are_none() {
    assert!(template_dirs("/root", "/other").is_empty());
}

#[test]
fn glob_of_directory() {
    assert_eq!(template_glob("/root/sub"), "/root/sub/.templates/*.html");
}

#[test]
fn nearest_template_wins() {
    let dirs = template_dirs("/root", "/root/sub/deep/file");
    let mut defines: Vec<bool> = Vec::new();
    // templates at /root/sub/.templates and /root/.templates
    let defined = ["/root/sub", "/root"];
    let chosen = loop {
        match template_step(&dirs, &defines) {
            TemplateStep::Load(glob) => {
                let dir = glob.strip_suffix("/.templates/*.html").unwrap().to_string();
                defines.push(defined.contains(&dir.as_str()));
            }
            TemplateStep::Use(k) => break Some(k),
            TemplateStep::NotFound => break None,
        }
    };
    assert_eq!(chosen, Some(2));
    assert_eq!(dirs[2], "/root/sub");
    assert_eq!(defines, vec![false, false, true]);
}

#[test]
fn template_not_found() {
    let dirs = template_dirs("/root", "/root/sub");
    assert!(matches!(template_step(&dirs, &vec![false, false]), TemplateStep::NotFound));
    assert!(matches!(template_step(&Vec::new(), &Vec::new()), TemplateStep::NotFound));
}

#[test]
fn readme_rendered() {
    assert_eq!(readme_description(None), "");
    assert_eq!(readme_description(Some(b"# Hi".to_vec())), "<h1>Hi</h1>");
}
