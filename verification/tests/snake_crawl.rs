use games::snake::{BodyPart, Direction};

#[test]
fn part_crawls_along_its_direction() {
    let part = BodyPart { x: 5, y: 7, direction: Direction::Up };
    assert_eq!(part.crawl(), BodyPart { x: 5, y: 8, direction: Direction::Up });
    let part = BodyPart { x: 5, y: 7, direction: Direction::Down };
    assert_eq!(part.crawl(), BodyPart { x: 5, y: 6, direction: Direction::Down });
    let part = BodyPart { x: 5, y: 7, direction: Direction::Left };
    assert_eq!(part.crawl(), BodyPart { x: 4, y: 7, direction: Direction::Left });
    let part = BodyPart { x: 5, y: 7, direction: Direction::Right };
    assert_eq!(part.crawl(), BodyPart { x: 6, y: 7, direction: Direction::Right });
}
