use pam::cli::Argument;
use pam::octane::{split_start_arguments, state_path, StartPiece};

fn texts(pieces: &[StartPiece], arguments: &[Argument]) -> Vec<String> {
    pieces
        .iter()
        .map(|piece| match piece {
            StartPiece::Argument(index) => arguments[*index].text.clone(),
            StartPiece::Text(text) => text.clone(),
        })
        .collect()
}

#[test]
fn separates_supervisor_and_laravel_options() {
    let arguments: Vec<Argument> = ["--workers=8", "--isolate-php-extensions", "--host=0.0.0.0", "--port", "8080"]
        .into_iter()
        .map(|text| Argument { text: text.to_owned(), utf8: true })
        .collect();
    let (supervisor, server) = split_start_arguments(&arguments).unwrap();
    assert_eq!(texts(&supervisor, &arguments), ["--workers", "8", "--isolate-php-extensions"]);
    assert_eq!(texts(&server, &arguments), ["--host=0.0.0.0", "--port", "8080"]);
}

#[test]
fn supervisor_options_need_values() {
    let arguments: Vec<Argument> =
        ["--pool=", "--workers"].into_iter().map(|text| Argument { text: text.to_owned(), utf8: true }).collect();
    assert_eq!(split_start_arguments(&arguments[..1].to_vec()).err().unwrap(), "--pool requires a value");
    assert_eq!(split_start_arguments(&arguments[1..].to_vec()).err().unwrap(), "--workers requires a value");
    assert_eq!(state_path("/srv/app"), "/srv/app/.pam/octane.json");
}
