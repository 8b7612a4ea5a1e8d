use food::client::{
    check_content_type, recipe_endpoint, recipe_listing_endpoint, Backend, BackendError,
};
use food::date::Date;
use food::frontend::{
    fetched_recipe, requested_recipe, AppError, ErrorResponse, ErrorWithLayout, ResultWithLayout,
};
use food::layout::Layout;
use food::models::Recipe;

fn glass_of_water() -> Recipe {
    Recipe {
        title: "Glass of water".to_string(),
        description: "Refreshing, isn't it?".to_string(),
        meal_type: "Drink".to_string(),
        source_name: "Cool source".to_string(),
        source_url: None,
        ingredients: Vec::new(),
        instructions: Vec::new(),
        creation_date: Date::from_ymd(2025, 1, 19).unwrap(),
    }
}

#[test]
fn url_is_scheme_host_port_and_path() {
    let backend = Backend::new("0.0.0.0".to_string(), 3001);
    assert_eq!(backend.format_url("/api/recipes"), "http://0.0.0.0:3001/api/recipes");
    assert_eq!(Backend::new("::1".to_string(), 0).format_url(""), "http://::1:0");
    assert_eq!(
        Backend::new("127.0.0.1".to_string(), 65535).format_url("/x"),
        "http://127.0.0.1:65535/x"
    );
}

#[test]
fn endpoints() {
    assert_eq!(recipe_listing_endpoint(), "/api/recipes");
    assert_eq!(recipe_endpoint(1), "/api/recipes/1");
    assert_eq!(recipe_endpoint(-20), "/api/recipes/-20");
}

#[test]
fn only_json_answers_are_accepted() {
    assert!(check_content_type(Some("application/json")).is_ok());
    match check_content_type(None) {
        Err(BackendError::UnknownContentType(None)) => {}
        other => panic!("{:?}", other),
    }
    for other in ["text/html", "application/json; charset=utf-8", "Application/JSON", ""] {
        match check_content_type(Some(other)) {
            Err(BackendError::UnknownContentType(Some(found))) => assert_eq!(found, other),
            unexpected => panic!("{:?}", unexpected),
        }
    }
}

#[test]
fn content_type_becomes_a_backend_error() {
    match BackendError::from(Some("text/plain".to_string())) {
        BackendError::UnknownContentType(Some(found)) => assert_eq!(found, "text/plain"),
        other => panic!("{:?}", other),
    }
    assert!(matches!(BackendError::from(None), BackendError::UnknownContentType(None)));
}

#[test]
fn a_404_from_the_server_is_not_found() {
    let error = AppError::from(BackendError::Reqwest {
        status: Some(404),
        description: "HTTP status client error (404 Not Found)".to_string(),
    });
    assert!(matches!(error, AppError::NotFound));
}

#[test]
fn other_failures_are_internal_errors_with_their_detail() {
    for status in [None, Some(500), Some(400), Some(403)] {
        match AppError::from(BackendError::Reqwest { status, description: "boom".to_string() }) {
            AppError::Internal { generic, detailed } => {
                assert_eq!(generic, "We ran into an unexpected_problem.");
                assert_eq!(detailed.as_deref(), Some("boom"));
            }
            AppError::NotFound => panic!("status {:?} is not a missing page", status),
        }
    }
    match AppError::from(BackendError::UnknownContentType(Some("text/html".to_string()))) {
        AppError::Internal { generic, detailed } => {
            assert_eq!(generic, "We ran into an unexpected_problem.");
            assert_eq!(detailed.as_deref(), Some("text/html"));
        }
        AppError::NotFound => panic!(),
    }
    match AppError::from(BackendError::UnknownContentType(None)) {
        AppError::Internal { detailed, .. } => assert_eq!(detailed, None),
        AppError::NotFound => panic!(),
    }
    match AppError::from(BackendError::Json("expected value at line 1 column 1".to_string())) {
        AppError::Internal { detailed, .. } => {
            assert_eq!(detailed.as_deref(), Some("expected value at line 1 column 1"))
        }
        AppError::NotFound => panic!(),
    }
}

#[test]
fn not_found_page() {
    let page = AppError::NotFound.with_layout(&Layout::new()).into_page();
    assert_eq!(page.status, 404);
    assert_eq!(page.heading, "404");
    assert_eq!(page.message, "Looks like we could not find what you were looking for.");
    assert_eq!(page.layout.title, "404 - Not Found | Food");
}

#[test]
fn internal_error_page() {
    let error = AppError::Internal {
        generic: "We ran into an unexpected_problem.".to_string(),
        detailed: Some("secret".to_string()),
    };
    let page = ErrorResponse { layout: Layout { title: "Kitchen".to_string() }, error }.into_page();
    assert_eq!(page.status, 500);
    assert_eq!(page.heading, "500");
    assert_eq!(page.message, "We ran into an unexpected_problem.");
    assert_eq!(page.layout.title, "500 - Internal Server Error | Kitchen");
}

#[test]
fn with_layout_keeps_values_and_frames_errors() {
    let layout = Layout::new();
    assert_eq!(Ok::<u8, AppError>(7).with_layout(&layout).ok(), Some(7));
    let framed = Err::<u8, AppError>(AppError::NotFound).with_layout(&layout).err().unwrap();
    assert_eq!(framed.layout.title, "Food");
    assert!(matches!(framed.error, AppError::NotFound));
}

#[test]
fn requested_recipe_reads_the_number_of_the_address() {
    assert_eq!(requested_recipe("1-glass-of-water").ok(), Some(1));
    assert_eq!(requested_recipe("15-").ok(), Some(15));
    for address in ["", "1", "glass-of-water", "-1-soup", "one-soup", "1.5-soup"] {
        assert!(matches!(requested_recipe(address), Err(AppError::NotFound)), "{:?}", address);
    }
}

#[test]
fn fetched_recipe_is_shown_at_its_own_address_only() {
    let shown = fetched_recipe("1-glass-of-water", 1, Ok(glass_of_water())).ok().unwrap();
    assert_eq!(shown.title, "Glass of water");
    for address in ["1-glass-of-wine", "1-", "1-Glass-of-water", "01-glass-of-water"] {
        assert!(matches!(
            fetched_recipe(address, 1, Ok(glass_of_water())),
            Err(AppError::NotFound)
        ));
    }
    assert!(matches!(
        fetched_recipe("2-glass-of-water", 1, Ok(glass_of_water())),
        Err(AppError::NotFound)
    ));
}

#[test]
fn fetched_recipe_reports_a_failed_request() {
    let missing = BackendError::Reqwest { status: Some(404), description: String::new() };
    assert!(matches!(fetched_recipe("9-x", 9, Err(missing)), Err(AppError::NotFound)));
    let broken = BackendError::Json("eof".to_string());
    assert!(matches!(fetched_recipe("9-x", 9, Err(broken)), Err(AppError::Internal { .. })));
}
