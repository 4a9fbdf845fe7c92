use movierama::{Movie, MovieRow, MovieramaError, NewMovie};

#[test]
fn movie_from_row() {
    let row = MovieRow {
        id: 7,
        title: "Inception".to_string(),
        description: Some("dreams".to_string()),
        date_added: 1_700_000_000_000_000,
        user_id: 1,
        username: "alice".to_string(),
        like_count: 3,
        hate_count: 1,
    };
    let m = Movie::from_row(row);
    assert_eq!(m.id, 7);
    assert_eq!(m.title, "Inception");
    assert_eq!(m.description, Some("dreams".to_string()));
    assert_eq!(m.date_added, 1_700_000_000_000_000);
    assert_eq!((m.user.id, m.user.username.as_str()), (1, "alice"));
    assert_eq!((m.like_count, m.hate_count), (3, 1));
}

#[test]
fn movie_title_required() {
    let ok = NewMovie { title: "Test Movie".to_string(), description: None };
    assert_eq!(ok.validate(), Ok(()));
    let empty = NewMovie { title: String::new(), description: Some("x".to_string()) };
    assert!(matches!(empty.validate(), Err(MovieramaError::BadRequest(_))));
}
