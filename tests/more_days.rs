use aoc2019::days::eight::{count_chars, count_of, str_chunks, DayEight};
use aoc2019::days::eleven::{Color, Facing, PainterBot, Point as HullPoint, Turn};
use aoc2019::days::fifteen::{Direction as DroidDirection, Point as MazePoint, RepairDroid, Space};
use aoc2019::days::fourteen::{read_line, reaction_map};
use aoc2019::days::nineteen::{beam_map, pulled};
use aoc2019::days::seventeen::ascii_text;
use aoc2019::days::six::{orbit_graph, count_total_orbits, transfers};
use aoc2019::days::ten::{factors, points_obscuring, str2map, Point as SkyPoint, SpaceObject};
use aoc2019::days::thirteen::{ArcadeGame, JoystickDirection, Tile};
use aoc2019::days::twelve::{normalize, Body, OrbitalSystem, Z3};
use aoc2019::days::twentyfive::{ascii_digits, from_digits, solution_commands};
use aoc2019::intcode::Machine;
use aoc2019::problem::Problem;

#[test]
fn example_1() {
    let mut system = OrbitalSystem::from_bodies(vec![
        Body::from_triple(-1, 0, 2),
        Body::from_triple(2, -10, -7),
        Body::from_triple(4, -8, 8),
        Body::from_triple(3, 5, -1),
    ]);

    system.step();

    assert_eq!(
        OrbitalSystem {
            bodies: vec![
                Body { position: Z3 { x: 2, y: -1, z: 1 }, velocity: Z3 { x: 3, y: -1, z: -1 } },
                Body { position: Z3 { x: 3, y: -7, z: -4 }, velocity: Z3 { x: 1, y: 3, z: 3 } },
                Body { position: Z3 { x: 1, y: -7, z: 5 }, velocity: Z3 { x: -3, y: 1, z: -3 } },
                Body { position: Z3 { x: 2, y: 2, z: 0 }, velocity: Z3 { x: -1, y: -3, z: 1 } },
            ],
            step_count: 1
        },
        system
    );
}

#[test]
fn example_2() {
    let mut system = OrbitalSystem::from_bodies(vec![
        Body::from_triple(-8, -10, 0),
        Body::from_triple(5, 5, 10),
        Body::from_triple(2, -7, 3),
        Body::from_triple(9, -8, -3),
    ]);

    system.n_steps(100);

    assert_eq!(
        OrbitalSystem {
            bodies: vec![
                Body { position: Z3 { x: 8, y: -12, z: -9 }, velocity: Z3 { x: -7, y: 3, z: 0 } },
                Body { position: Z3 { x: 13, y: 16, z: -3 }, velocity: Z3 { x: 3, y: -11, z: -5 } },
                Body { position: Z3 { x: -29, y: -11, z: -1 }, velocity: Z3 { x: -3, y: 7, z: 4 } },
                Body { position: Z3 { x: 16, y: -13, z: 23 }, velocity: Z3 { x: 7, y: 1, z: 1 } },
            ],
            step_count: 100
        },
        system
    );

    assert_eq!(29, system.bodies[0].potential_energy());
    assert_eq!(10, system.bodies[0].kinetic_energy());
    assert_eq!(290, system.bodies[0].total_energy());
    assert_eq!(32, system.bodies[1].potential_energy());
    assert_eq!(19, system.bodies[1].kinetic_energy());
    assert_eq!(608, system.bodies[1].total_energy());
    assert_eq!(41, system.bodies[2].potential_energy());
    assert_eq!(14, system.bodies[2].kinetic_energy());
    assert_eq!(574, system.bodies[2].total_energy());
    assert_eq!(52, system.bodies[3].potential_energy());
    assert_eq!(9, system.bodies[3].kinetic_energy());
    assert_eq!(468, system.bodies[3].total_energy());

    assert_eq!(Some(1940), system.total_energy());
}

#[test]
fn overflowing_step_changes_nothing() {
    let mut system = OrbitalSystem::from_bodies(vec![Body {
        position: Z3 { x: i64::MAX, y: 0, z: 0 },
        velocity: Z3 { x: 1, y: 0, z: 0 },
    }]);
    assert!(!system.step());
    assert_eq!(0, system.step_count);
    assert_eq!(i64::MAX, system.bodies[0].position.x);
    assert_eq!(-1, normalize(-7));
    assert_eq!(0, normalize(0));
}

#[test]
fn image_layers() {
    assert_eq!(vec!["12", "3456", "7890"], str_chunks("1234567890", 4));
    assert_eq!(vec!["abc"], str_chunks("abc", 5));
    let counts = count_chars("0120");
    assert_eq!(2, count_of(&counts, '0'));
    assert_eq!(1, count_of(&counts, '2'));
    assert_eq!(0, count_of(&counts, '9'));
    let mut layer = String::new();
    for _ in 0..150 {
        layer.push('1');
    }
    assert_eq!("0", DayEight {}.part_one(&layer));
}

#[test]
fn hull_robot_moves() {
    assert_eq!(Facing::Left, Facing::Up.leftwards());
    assert_eq!(Facing::Right, Facing::Up.rightwards());
    assert_eq!(Facing::Down, Facing::Right.turn(Turn::Right));
    assert_eq!(HullPoint { x: 0, y: -1 }, Facing::Up.step(&HullPoint { x: 0, y: 0 }));
    assert_eq!(1, Color::White.to_int());
    assert!(Color::from_int(2).is_err());
    assert!(Turn::from_int(5).is_err());
    // A brain that paints the first panel white, turns right, reads once more and halts.
    let brain = Machine::from_str("3,100,104,1,104,1,3,100,99").unwrap();
    let mut bot = PainterBot::new(brain);
    bot.run().unwrap();
    assert_eq!(Color::White, bot.color_at(&HullPoint { x: 0, y: 0 }));
    assert_eq!(HullPoint { x: 1, y: 0 }, bot.location);
    assert_eq!(1, bot.canvas.len());
    assert_eq!("\n#\n", bot.canvas_str());
}

#[test]
fn arcade_screen() {
    assert_eq!(Tile::Ball, Tile::from_int(4).unwrap());
    assert!(Tile::from_int(5).is_err());
    assert_eq!(JoystickDirection::Left, JoystickDirection::from_str("h").unwrap());
    assert_eq!(JoystickDirection::Neutral, JoystickDirection::from_str("").unwrap());
    assert!(JoystickDirection::from_str("x").is_err());
    let program = Machine::from_str("104,1,104,2,104,3,104,-1,104,0,104,77,99").unwrap();
    let mut game = ArcadeGame::new(program);
    game.run().unwrap();
    game.process_output().unwrap();
    assert_eq!(77, game.score);
    assert_eq!(Tile::HorizontalPaddle, game.tile_at(aoc2019::days::thirteen::Point { x: 1, y: 2 }));
    assert_eq!(1, game.count_tiles(Tile::HorizontalPaddle));
    assert_eq!("Score: 77\n\n=\n", game.render());
}

#[test]
fn droid_moves() {
    assert_eq!(MazePoint { x: 0, y: -1 }, MazePoint { x: 0, y: 0 }.in_direction(&DroidDirection::North));
    assert_eq!(Space::Wall, Space::from_int(0));
    assert_eq!(Space::Oxygen, Space::from_int(2));
    assert_eq!(4, DroidDirection::East.as_int());
    assert_eq!(DroidDirection::West, DroidDirection::from_draw(6));
    // A droid program that always reports an open square.
    let program = Machine::from_str("3,100,104,1,1105,1,0").unwrap();
    let mut droid = RepairDroid::new(program);
    assert_eq!(Space::Empty, droid.explore_step(DroidDirection::East).unwrap());
    assert_eq!(MazePoint { x: 1, y: 0 }, droid.position);
    assert_eq!(Space::Empty, droid.space_at(&MazePoint { x: 1, y: 0 }));
    assert_eq!(Space::Unknown, droid.space_at(&MazePoint { x: 5, y: 5 }));
}

#[test]
fn adventure_digits() {
    assert_eq!(24, solution_commands().len());
    assert_eq!("south\n", solution_commands()[0]);
    assert_eq!(Some(2105377), from_digits(vec![2, 1, 0, 5, 3, 7, 7]));
    assert_eq!(Some(0), from_digits(vec![]));
    assert_eq!(None, from_digits(vec![9; 40]));
    assert_eq!(vec![4, 2], ascii_digits(&vec![65, 52, 32, 50, 10]));
}

#[test]
fn orbit_counts() {
    let map = "COM)B\nB)C\nC)D\nD)E\nE)F\nB)G\nG)H\nD)I\nE)J\nJ)K\nK)L\nK)YOU\nI)SAN";
    let graph = orbit_graph(map).unwrap();
    assert_eq!(54, count_total_orbits(&graph).unwrap());
    let plain = orbit_graph("COM)B\nB)C\nC)D\nD)E\nE)F\nB)G\nG)H\nD)I\nE)J\nJ)K\nK)L").unwrap();
    assert_eq!(42, count_total_orbits(&plain).unwrap());
    assert_eq!(4, transfers(&graph, &vec!['Y', 'O', 'U'], &vec!['S', 'A', 'N']).unwrap());
    assert!(orbit_graph("COM)B\nCOM)B").is_err());
    assert!(orbit_graph("COMB").is_err());
}

#[test]
fn asteroid_map() {
    let map = str2map(".#\n#.").unwrap();
    assert_eq!(4, map.len());
    assert_eq!((SkyPoint { x: 1, y: 0 }, SpaceObject::Asteroid), map[1]);
    assert!(str2map(".x").is_err());
    let mut fs = factors(&12);
    fs.sort();
    assert_eq!(vec![2, 3, 4, 6], fs);
    assert_eq!(vec![SkyPoint { x: 2, y: 1 }], points_obscuring(&SkyPoint { x: 0, y: 0 }, &SkyPoint { x: 4, y: 2 }));
}

#[test]
fn reaction_lines() {
    let r = read_line("7 A, 1 E => 1 FUEL").unwrap();
    assert_eq!(2, r.inputs.len());
    assert_eq!("A", r.inputs[0].chemical);
    assert_eq!(7, r.inputs[0].amount);
    assert_eq!("FUEL", r.output.chemical);
    assert!(read_line("nothing here").is_err());
    let map = reaction_map(&vec![r]);
    assert_eq!(("FUEL".to_string(), 0), map[0]);
}

#[test]
fn camera_and_beam() {
    assert_eq!("#.\n", ascii_text(&vec![35, 46, 10]));
    let always = Machine::from_str("3,20,3,21,104,1,99").unwrap();
    assert_eq!(Some(true), pulled(&always, 3, 4));
    assert_eq!(Some(("##\n##\n".to_string(), 4)), beam_map(&always, 2));
}
