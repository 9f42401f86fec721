use backend::routing::{respond, route, strip_stage, ResponseBody, Route};

#[test]
fn stage_is_taken_off_the_path() {
    assert_eq!(strip_stage("/beta/chat/messages/general"), "/chat/messages/general");
    assert_eq!(strip_stage("/beta/health"), "/health");
    assert_eq!(strip_stage("/health"), "/health");
    assert_eq!(strip_stage("/"), "/");
    assert_eq!(strip_stage(""), "");
    assert_eq!(strip_stage("beta/health"), "beta/health");
    assert_eq!(strip_stage("//health"), "/health");
    assert_eq!(strip_stage("/beta/"), "/");
    assert_eq!(strip_stage("/bêta/räume/ü"), "/räume/ü");
}

#[test]
fn strip_stage_agrees_with_the_std_idiom() {
    for path in ["/a/b/c", "/a", "a/b", "", "/", "//", "/a//b", "/é/ü/ö", "///", "/a/"] {
        let expected = match path.strip_prefix("/").and_then(|p| p.split_once("/").map(|(_, r)| r))
        {
            Some(rest) => format!("/{}", rest),
            None => path.to_string(),
        };
        assert_eq!(strip_stage(path), expected, "path {:?}", path);
    }
}

#[test]
fn requests_are_routed_by_method_and_path() {
    assert!(matches!(route("GET", "/beta/health"), Route::Health));
    assert!(matches!(route("POST", "/beta/chat/messages"), Route::PostMessage));
    match route("GET", "/beta/chat/messages/general") {
        Route::GetMessages { room_id } => assert_eq!(room_id, "general"),
        _ => panic!("the messages of a room were asked for"),
    }
    match route("GET", "/beta/chat/messages/") {
        Route::GetMessages { room_id } => assert_eq!(room_id, ""),
        _ => panic!("the messages of a room were asked for"),
    }
    match route("GET", "/beta/chat/messages//chat/messages/a/b") {
        Route::GetMessages { room_id } => assert_eq!(room_id, "a/b"),
        _ => panic!("the messages of a room were asked for"),
    }
    assert!(matches!(route("GET", "/health"), Route::Health));
    assert!(matches!(route("GET", "/chat/messages"), Route::NotFound));
    assert!(matches!(route("GET", "/beta/chat/messages"), Route::NotFound));
    assert!(matches!(route("POST", "/beta/health"), Route::NotFound));
    assert!(matches!(route("get", "/beta/health"), Route::NotFound));
    assert!(matches!(route("DELETE", "/beta/chat/messages/general"), Route::NotFound));
    assert!(matches!(route("POST", "/beta/chat/messages/general"), Route::NotFound));
    assert!(matches!(route("GET", ""), Route::NotFound));
}

#[test]
fn room_of_path_agrees_with_the_std_idiom() {
    for path in ["/chat/messages/x", "/chat/messages//chat/messages/", "/chat/messages/ä/ö"] {
        match route("GET", &format!("/stage{}", path)) {
            Route::GetMessages { room_id } => {
                assert_eq!(room_id, path.trim_start_matches("/chat/messages/"))
            }
            _ => panic!("the messages of a room were asked for"),
        }
    }
}

#[test]
fn answers_carry_the_status_of_their_route() {
    let ok = respond(&Route::Health, Some("{}".to_string()));
    assert_eq!(ok.status, 200);
    assert!(ok.json);
    assert!(matches!(ok.body, ResponseBody::Text(ref t) if t == "{}"));

    let created = respond(&Route::PostMessage, Some("{\"id\":1}".to_string()));
    assert_eq!(created.status, 201);
    assert!(created.json);

    let read = respond(&Route::GetMessages { room_id: "r".to_string() }, Some("[]".to_string()));
    assert_eq!(read.status, 200);

    for failed in [
        respond(&Route::Health, None),
        respond(&Route::PostMessage, None),
        respond(&Route::GetMessages { room_id: "r".to_string() }, None),
    ] {
        assert_eq!(failed.status, 500);
        assert!(!failed.json);
        assert!(matches!(failed.body, ResponseBody::Text(ref t) if t == "Internal server error"));
    }

    for missing in [respond(&Route::NotFound, None), respond(&Route::NotFound, Some("x".into()))] {
        assert_eq!(missing.status, 404);
        assert!(!missing.json);
        assert!(matches!(missing.body, ResponseBody::Empty));
    }
}
