use card_preview::{
    card, step, Action, Answer, Card, CardWrapper, Config, Event, FetchError, HandlerState,
    Outcome, Response, Storage,
};

const SHELL: &str = "<!doctype html>\n<html><head><title>How to cards</title></head>\n<body><div id=\"root\"></div></body></html>\n";

fn config() -> Config {
    Config {
        public_url: String::from("https://example.com"),
        image_url: String::from("https://img.example.com"),
        backend_url: String::from("http://backend:9000"),
        sitename: String::from("Cards"),
        index_html_path: String::from("public/index.html"),
    }
}

fn storage() -> Storage {
    Storage::new(String::from(SHELL))
}

fn record(preview_url: Option<&str>) -> Card {
    Card {
        title: String::from("T"),
        description: String::from("D"),
        id: 5,
        created_at: String::from("2020-01-01"),
        updated_at: String::from("2020-01-02"),
        preview_url: preview_url.map(String::from),
    }
}

fn fallback() -> Response {
    Response {
        status: 200,
        content_type: String::from("text/html; charset=utf-8"),
        body: String::from(SHELL),
    }
}

/// Drives one request to its end with the given outcome of the fetch.
fn serve(card_id: Option<u32>, fetched: Event) -> (Outcome, Response) {
    let (config, storage) = (config(), storage());
    let (state, action) = card(&config, &storage, HandlerState::Start, Event::Routed { card_id });
    let (state, action) = match action {
        Action::Fetch { .. } => card(&config, &storage, state, fetched),
        other => (state, other),
    };
    match (state, action) {
        (HandlerState::Responding { outcome }, Action::Respond { response }) => (outcome, response),
        other => panic!("request did not end: {:?}", other),
    }
}

// The backend answers
// {"ok":true,"result":{"meta":{"title":"T","description":"D","id":5,
//  "createdAt":"2020-01-01","updatedAt":"2020-01-02","previewUrl":"img.png"}}}
#[test]
fn scenario_card_with_preview() {
    let answer = Answer::Success { ok: true, result: CardWrapper { meta: record(Some("img.png")) } };
    let (outcome, response) = serve(Some(5), Event::Answered { answer });
    assert_eq!(outcome, Outcome::Success);
    assert_eq!(response.status, 200);
    assert_eq!(response.content_type, "text/html; charset=utf-8");
    assert!(response.body.contains("<meta property=\"og:title\" content=\"T\" />"));
    assert!(response.body.contains("<meta property=\"twitter:card\" content=\"summary_large_image\" />"));
    assert!(response.body.contains(
        "<meta property=\"og:image\" content=\"https://img.example.com/img.png\" />"
    ));
    assert!(response.body.contains(
        "<meta property=\"twitter:image\" content=\"https://img.example.com/img.png\" />"
    ));
    let fragment = config().meta_for_card(&record(Some("img.png")));
    assert_eq!(
        response.body,
        format!(
            "<!doctype html>\n<html><head><title>How to cards</title>{}</head>\n<body><div id=\"root\"></div></body></html>\n",
            fragment
        )
    );
}

// The same answer without "previewUrl".
#[test]
fn scenario_card_without_preview() {
    let answer = Answer::Success { ok: true, result: CardWrapper { meta: record(None) } };
    let (outcome, response) = serve(Some(5), Event::Answered { answer });
    assert_eq!(outcome, Outcome::Success);
    assert_eq!(response.status, 200);
    assert!(response.body.contains("<meta property=\"twitter:card\" content=\"summary\" />"));
    assert!(!response.body.contains("og:image"));
    assert!(!response.body.contains("twitter:image"));
    assert!(!response.body.contains("summary_large_image"));
}

// The backend answers {"ok":false,"error":"not found"}.
#[test]
fn scenario_backend_rejects() {
    let answer = Answer::Failure { ok: false, error: String::from("not found") };
    let (outcome, response) = serve(Some(5), Event::Answered { answer });
    assert_eq!(outcome, Outcome::Fallback);
    assert_eq!(response, fallback());
    assert_eq!(response.body.as_bytes(), SHELL.as_bytes());
}

// The connection to the backend is refused.
#[test]
fn scenario_backend_unreachable() {
    let (outcome, response) = serve(Some(5), Event::TransportFailed);
    assert_eq!(outcome, Outcome::Fallback);
    assert_eq!(response, fallback());
    assert_eq!(response.body.as_bytes(), SHELL.as_bytes());
}

#[test]
fn result_with_ok_unset_falls_back() {
    let answer = Answer::Success { ok: false, result: CardWrapper { meta: record(None) } };
    let (outcome, response) = serve(Some(5), Event::Answered { answer });
    assert_eq!(outcome, Outcome::Fallback);
    assert_eq!(response, fallback());
}

#[test]
fn path_without_card_id_falls_back_without_a_fetch() {
    let (state, action) =
        card(&config(), &storage(), HandlerState::Start, Event::Routed { card_id: None });
    assert_eq!(state, HandlerState::Responding { outcome: Outcome::Fallback });
    assert_eq!(action, Action::Respond { response: fallback() });
}

#[test]
fn path_with_card_id_asks_the_backend() {
    let (state, action) = card(
        &config(),
        &storage(),
        HandlerState::Start,
        Event::Routed { card_id: Some(42) },
    );
    assert_eq!(state, HandlerState::Fetching { card_id: 42 });
    assert_eq!(
        action,
        Action::Fetch { url: String::from("http://backend:9000/api/cards/42/meta/") }
    );
}

#[test]
fn quote_in_title_stays_inside_the_attribute() {
    let mut meta = record(None);
    meta.title = String::from("He said \"hi\"");
    meta.description = String::from("a \" b");
    let answer = Answer::Success { ok: true, result: CardWrapper { meta } };
    let (_, response) = serve(Some(5), Event::Answered { answer });
    assert!(response.body.contains(
        "<meta property=\"og:title\" content=\"He said &quot;hi&quot;\" />"
    ));
    assert!(response.body.contains("<meta property=\"description\" content=\"a &quot; b\" />"));
    let added = response.body.matches('"').count() - SHELL.matches('"').count();
    assert_eq!(added, 13 * 4);
}

#[test]
fn shell_without_marker_is_served_as_it_is() {
    let config = config();
    let storage = Storage::new(String::from("<html><body></body></html>"));
    let answer = Answer::Success { ok: true, result: CardWrapper { meta: record(None) } };
    let (state, action) = card(
        &config,
        &storage,
        HandlerState::Fetching { card_id: 5 },
        Event::Answered { answer },
    );
    assert_eq!(state, HandlerState::Responding { outcome: Outcome::Success });
    match action {
        Action::Respond { response } => {
            assert_eq!(response.status, 200);
            assert_eq!(response.body, "<html><body></body></html>");
        }
        other => panic!("no response: {:?}", other),
    }
}

#[test]
fn page_keeps_the_number_of_markers() {
    let config = config();
    let storage = Storage::new(String::from("<head></head><!-- </head> --></head>"));
    let mut meta = record(Some("</head>"));
    meta.title = String::from("</head>");
    let answer = Answer::Success { ok: true, result: CardWrapper { meta } };
    let (_, action) = card(
        &config,
        &storage,
        HandlerState::Fetching { card_id: 5 },
        Event::Answered { answer },
    );
    match action {
        Action::Respond { response } => {
            assert_eq!(response.body.matches("</head>").count(), 3);
            assert!(response.body.starts_with("<head><meta property=\"title\" content=\"&lt;/head&gt;\" />"));
        }
        other => panic!("no response: {:?}", other),
    }
}

#[test]
fn single_steps_through_a_successful_request() {
    let (config, storage) = (config(), storage());
    let (state, action) = step(
        &config,
        &storage,
        HandlerState::Start,
        Some(Event::Routed { card_id: Some(5) }),
    );
    assert_eq!(state, HandlerState::Fetching { card_id: 5 });
    assert_eq!(
        action,
        Action::Fetch { url: String::from("http://backend:9000/api/cards/5/meta/") }
    );

    let answer = Answer::Success { ok: true, result: CardWrapper { meta: record(None) } };
    let (state, action) = step(&config, &storage, state, Some(Event::Answered { answer }));
    assert_eq!(state, HandlerState::Decoded { card: record(None) });
    assert_eq!(action, Action::Continue);
    assert!(action.is_continue());

    let (state, action) = step(&config, &storage, state, None);
    let document = card_preview::inject(SHELL, &config.meta_for_card(&record(None)));
    assert_eq!(state, HandlerState::Rendered { document: document.clone() });
    assert_eq!(action, Action::Continue);

    let (state, action) = step(&config, &storage, state, None);
    assert_eq!(state, HandlerState::Responding { outcome: Outcome::Success });
    assert_eq!(
        action,
        Action::Respond {
            response: Response {
                status: 200,
                content_type: String::from("text/html; charset=utf-8"),
                body: document,
            }
        }
    );
    assert!(!action.is_continue());
}

#[test]
fn single_steps_through_a_failed_request() {
    let (config, storage) = (config(), storage());
    let (state, action) = step(
        &config,
        &storage,
        HandlerState::Fetching { card_id: 5 },
        Some(Event::TransportFailed),
    );
    assert_eq!(state, HandlerState::FetchFailed { error: FetchError::Transport });
    assert_eq!(action, Action::Continue);
    let (state, action) = step(&config, &storage, state, None);
    assert_eq!(state, HandlerState::Responding { outcome: Outcome::Fallback });
    assert_eq!(action, Action::Respond { response: fallback() });

    let answer = Answer::Failure { ok: false, error: String::from("not found") };
    let (state, action) = step(
        &config,
        &storage,
        HandlerState::Fetching { card_id: 5 },
        Some(Event::Answered { answer }),
    );
    assert_eq!(
        state,
        HandlerState::FetchFailed { error: FetchError::BackendRejected(String::from("not found")) }
    );
    assert_eq!(action, Action::Continue);
}

#[test]
fn responding_is_final() {
    let (config, storage) = (config(), storage());
    for outcome in [Outcome::Success, Outcome::Fallback] {
        let events = [
            Event::Routed { card_id: Some(1) },
            Event::Routed { card_id: None },
            Event::TransportFailed,
            Event::Answered { answer: Answer::Failure { ok: false, error: String::new() } },
        ];
        for event in events {
            let (state, action) =
                card(&config, &storage, HandlerState::Responding { outcome }, event);
            assert_eq!(state, HandlerState::Responding { outcome });
            assert_eq!(action, Action::Wait);
        }
        let (state, action) = step(&config, &storage, HandlerState::Responding { outcome }, None);
        assert_eq!(state, HandlerState::Responding { outcome });
        assert_eq!(action, Action::Wait);
    }
}

#[test]
fn event_that_a_state_does_not_wait_for_changes_nothing() {
    let (config, storage) = (config(), storage());
    let (state, action) = card(&config, &storage, HandlerState::Start, Event::TransportFailed);
    assert_eq!(state, HandlerState::Start);
    assert_eq!(action, Action::Wait);

    let (state, action) = card(
        &config,
        &storage,
        HandlerState::Fetching { card_id: 3 },
        Event::Routed { card_id: Some(4) },
    );
    assert_eq!(state, HandlerState::Fetching { card_id: 3 });
    assert_eq!(action, Action::Wait);

    let (state, action) = step(&config, &storage, HandlerState::Start, None);
    assert_eq!(state, HandlerState::Start);
    assert_eq!(action, Action::Wait);
}

#[test]
fn states_in_between_go_on_whatever_the_event() {
    let (config, storage) = (config(), storage());
    let (state, action) = card(
        &config,
        &storage,
        HandlerState::FetchFailed { error: FetchError::Transport },
        Event::Routed { card_id: Some(9) },
    );
    assert_eq!(state, HandlerState::Responding { outcome: Outcome::Fallback });
    assert_eq!(action, Action::Respond { response: fallback() });

    let (state, action) = card(
        &config,
        &storage,
        HandlerState::Rendered { document: String::from("<p>ready</p>") },
        Event::TransportFailed,
    );
    assert_eq!(state, HandlerState::Responding { outcome: Outcome::Success });
    match action {
        Action::Respond { response } => assert_eq!(response.body, "<p>ready</p>"),
        other => panic!("no response: {:?}", other),
    }
}
