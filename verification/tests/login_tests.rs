use typr::login::{
    current_app_bundle_path, launch_agent_path, launch_agent_plist, start_on_login_change,
    start_on_login_plist, start_on_login_program_arguments, xml_escape, LoginAgentChange,
};

#[test]
fn launch_agent_plist_escapes_program_arguments() {
    let plist = launch_agent_plist(&[
        "/usr/bin/open".to_string(),
        "/Applications/Typr & More.app".to_string(),
    ]);

    assert!(plist.contains("<string>com.typr.app.login</string>"));
    assert!(plist.contains("<string>/Applications/Typr &amp; More.app</string>"));
    assert!(plist.contains("<key>RunAtLoad</key>"));
}

#[test]
fn start_on_login_arguments_open_app_bundle_when_available() {
    let args = start_on_login_program_arguments("/Applications/Typr.app/Contents/MacOS/typr");

    assert_eq!(
        args,
        vec![
            "/usr/bin/open".to_string(),
            "-n".to_string(),
            "/Applications/Typr.app".to_string(),
        ]
    );
}

#[test]
fn start_on_login_arguments_run_the_executable_outside_a_bundle() {
    let args = start_on_login_program_arguments("/usr/local/bin/typr");
    assert_eq!(args, vec!["/usr/local/bin/typr".to_string()]);
}

#[test]
fn app_bundle_is_the_innermost_app_ancestor() {
    assert_eq!(
        current_app_bundle_path("/Applications/Outer.app/Contents/Inner.app/Contents/MacOS/x"),
        Some("/Applications/Outer.app/Contents/Inner.app".to_string())
    );
    assert_eq!(current_app_bundle_path("/opt/typr/bin/typr"), None);
    assert_eq!(
        current_app_bundle_path("/Applications/Typr.app"),
        Some("/Applications/Typr.app".to_string())
    );
}

#[test]
fn xml_escape_replaces_all_five_markup_characters() {
    assert_eq!(
        xml_escape("a&b<c>d\"e'f"),
        "a&amp;b&lt;c&gt;d&quot;e&apos;f"
    );
    assert_eq!(xml_escape("plain"), "plain");
}

#[test]
fn launch_agent_plist_is_the_full_property_list() {
    let plist = launch_agent_plist(&["/bin/typr".to_string()]);
    assert_eq!(
        plist,
        "<?xml version=\"1.0\" encoding=\"UTF-8\"?>\n<!DOCTYPE plist PUBLIC \"-//Apple//DTD PLIST 1.0//EN\" \"http://www.apple.com/DTDs/PropertyList-1.0.dtd\">\n<plist version=\"1.0\">\n<dict>\n  <key>Label</key>\n  <string>com.typr.app.login</string>\n  <key>ProgramArguments</key>\n  <array>\n    <string>/bin/typr</string>\n  </array>\n  <key>RunAtLoad</key>\n  <true/>\n</dict>\n</plist>\n"
    );
}

#[test]
fn launch_agent_path_is_under_library_launch_agents() {
    assert_eq!(
        launch_agent_path("/Users/me"),
        "/Users/me/Library/LaunchAgents/com.typr.app.login.plist"
    );
}

#[test]
fn start_on_login_change_writes_or_removes_the_agent() {
    let path = "/Users/me/Library/LaunchAgents/com.typr.app.login.plist";
    let exe = "/Applications/Typr.app/Contents/MacOS/typr";
    assert_eq!(
        start_on_login_change(true, path, exe),
        LoginAgentChange::Write {
            path: path.to_string(),
            contents: start_on_login_plist(exe),
        }
    );
    assert_eq!(
        start_on_login_change(false, path, exe),
        LoginAgentChange::Remove { path: path.to_string() }
    );
    assert!(start_on_login_plist(exe).contains("<string>-n</string>\n    <string>/Applications/Typr.app</string>"));
}

#[test]
fn escaping_does_not_escape_entities_twice() {
    assert_eq!(xml_escape("a&lt;"), "a&amp;lt;");
    assert_eq!(xml_escape("&&"), "&amp;&amp;");
    assert_eq!(xml_escape(""), "");
}
