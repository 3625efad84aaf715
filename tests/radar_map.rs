use mapserver::radar::{
    add_new_flight, direction_from_index, generate_map, make_flight, move_aircrafts, next_tick,
    occupant, render_map, Direction, Flight, MAP_HEIGHT, MAP_WIDTH,
};
use mapserver::request::accept_line;

fn flight(x: i32, y: i32, direction: Direction) -> Flight {
    Flight { id: String::from("AB12"), x, y, direction }
}

fn is_call_sign(id: &str) -> bool {
    let chars: Vec<char> = id.chars().collect();
    chars.len() >= 4
        && chars[0].is_ascii_uppercase()
        && chars[1].is_ascii_uppercase()
        && chars[2..].iter().all(|c| c.is_ascii_digit())
}

#[test]
fn moves_one_step_inside_the_map() {
    let mut data = vec![flight(5, 5, Direction::NE), flight(5, 5, Direction::SW), flight(3, 4, Direction::S)];
    move_aircrafts(&mut data);
    assert_eq!((data[0].x, data[0].y), (6, 4));
    assert_eq!((data[1].x, data[1].y), (4, 6));
    assert_eq!((data[2].x, data[2].y), (3, 5));
    assert_eq!(data[0].id, "AB12");
    assert_eq!(data[1].direction, Direction::SW);
}

#[test]
fn moves_wrap_at_the_edges() {
    let mut data = vec![
        flight(0, 0, Direction::NW),
        flight(MAP_WIDTH - 1, MAP_HEIGHT - 1, Direction::SE),
        flight(0, 3, Direction::W),
        flight(7, 0, Direction::N),
        flight(MAP_WIDTH - 1, 2, Direction::E),
    ];
    move_aircrafts(&mut data);
    assert_eq!((data[0].x, data[0].y), (MAP_WIDTH - 1, MAP_HEIGHT - 1));
    assert_eq!((data[1].x, data[1].y), (0, 0));
    assert_eq!((data[2].x, data[2].y), (MAP_WIDTH - 1, 3));
    assert_eq!((data[3].x, data[3].y), (7, MAP_HEIGHT - 1));
    assert_eq!((data[4].x, data[4].y), (0, 2));
}

#[test]
fn first_flight_in_a_cell_is_shown() {
    let data = vec![flight(2, 3, Direction::E), flight(2, 3, Direction::W)];
    assert_eq!(occupant(&data, 2, 3), Some(Direction::E));
    assert_eq!(occupant(&data, 3, 2), None);
}

#[test]
fn empty_map_text() {
    let text = render_map(&Vec::new());
    let mut expected = String::new();
    for _ in 0..MAP_HEIGHT {
        expected.push_str(" ");
        expected.push_str(&"-- ".repeat(MAP_WIDTH as usize));
        expected.push_str("\r\n");
        expected.push_str(&"|  ".repeat(MAP_WIDTH as usize));
        expected.push_str("|\r\n");
    }
    expected.push_str(&" --".repeat(MAP_WIDTH as usize));
    expected.push_str("\r\n");
    assert_eq!(text, expected);
}

#[test]
fn map_text_shows_arrows() {
    let text = render_map(&vec![flight(0, 0, Direction::N), flight(1, 0, Direction::SE)]);
    let lines: Vec<&str> = text.split("\r\n").collect();
    assert!(lines[1].starts_with("|\u{2191} |\u{2198}\u{FE0E} |  |"));
    assert_eq!(lines.len(), 2 * MAP_HEIGHT as usize + 2);
}

#[test]
fn arrows_for_headings() {
    assert_eq!(Direction::N.arrow(), "\u{2191} ");
    assert_eq!(Direction::NW.arrow(), "\u{2196}\u{FE0E} ");
    assert_eq!(Direction::W.arrow(), "\u{2190} ");
}

#[test]
fn headings_by_number() {
    assert_eq!(direction_from_index(0), Direction::N);
    assert_eq!(direction_from_index(3), Direction::SE);
    assert_eq!(direction_from_index(7), Direction::NW);
    assert_eq!(direction_from_index(8), Direction::N);
}

#[test]
fn flight_from_drawn_values() {
    let f = make_flight(b'Q', b'Z', 42, 3, 9, 6);
    assert_eq!(f.id, "QZ42");
    assert_eq!((f.x, f.y, f.direction), (3, 9, Direction::W));
    assert_eq!(make_flight(b'A', b'B', 7, 0, 0, 0).id, "AB07");
    assert_eq!(make_flight(b'A', b'B', 9998, 0, 0, 0).id, "AB9998");
}

#[test]
fn new_flights_are_on_the_map() {
    let mut data = Vec::new();
    add_new_flight(&mut data);
    assert_eq!(data.len(), 1);
    generate_map(&mut data);
    assert_eq!(data.len(), 11);
    for f in &data {
        assert!(0 <= f.x && f.x < MAP_WIDTH && 0 <= f.y && f.y < MAP_HEIGHT);
        assert!(is_call_sign(&f.id), "{}", f.id);
    }
}

#[test]
fn moves_every_fourth_tick() {
    assert_eq!(next_tick(0), (1, false));
    assert_eq!(next_tick(2), (3, false));
    assert_eq!(next_tick(3), (0, true));
}

#[test]
fn request_head_stops_at_blank_line() {
    let mut head = Vec::new();
    assert!(accept_line(&mut head, String::from("GET / HTTP/1.1")));
    assert!(accept_line(&mut head, String::from("Host: x")));
    assert!(!accept_line(&mut head, String::new()));
    assert_eq!(head, vec![String::from("GET / HTTP/1.1"), String::from("Host: x")]);
}
