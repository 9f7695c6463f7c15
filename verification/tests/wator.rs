use arcade::wator::{Fish, Shark, Specie, Wator};
use rand::rngs::StdRng;
use rand::SeedableRng;

fn empty_world(width: u8, height: u8) -> Wator {
    Wator {
        width,
        height,
        population: vec![None; width as usize * height as usize],
    }
}

fn put(world: &mut Wator, x: u8, y: u8, agent: Specie) {
    let idx = y as usize * world.width as usize + x as usize;
    world.population[idx] = Some(agent);
}

fn total_of(world: &Wator) -> u32 {
    let (fishes, sharks) = world.count();
    fishes as u32 + sharks as u32
}

#[test]
fn new_places_exactly_the_asked_counts() {
    let mut rng = StdRng::seed_from_u64(7);
    let world = Wator::new(10, 10, 30, 5, &mut rng);

    assert_eq!((30, 5), world.count());
}

#[test]
fn new_can_fill_the_whole_grid_without_collisions() {
    let mut rng = StdRng::seed_from_u64(3);
    let world = Wator::new(3, 3, 9, 0, &mut rng);

    assert_eq!((9, 0), world.count());
    for y in 0..3 {
        for x in 0..3 {
            assert!(matches!(world.agent_at(x, y), Some(Specie::Fish(_))));
        }
    }
}

#[test]
fn a_lone_fish_on_a_one_cell_torus_is_its_own_neighbor_and_stays() {
    let mut world = empty_world(1, 1);
    put(&mut world, 0, 0, Specie::Fish(Fish { life: 0 }));

    let mut rng = StdRng::seed_from_u64(1);
    let next = world.next(&mut rng);

    assert_eq!(Some(Specie::Fish(Fish { life: 1 })), next.agent_at(0, 0));
}

// A lone fish below the reproduction threshold leaves its cell and occupies
// exactly one of the four neighbor cells; over many seeds every neighbor
// occurs, which also shows the random choice really depends on the
// generator's draws.
#[test]
fn a_lone_fish_moves_to_exactly_one_neighbor_cell() {
    let mut seen = [false; 4];
    for seed in 0..64 {
        let mut world = empty_world(3, 3);
        put(&mut world, 1, 1, Specie::Fish(Fish { life: 0 }));

        let mut rng = StdRng::seed_from_u64(seed);
        let next = world.next(&mut rng);

        assert_eq!(None, next.agent_at(1, 1));
        assert_eq!((1, 0), next.count());

        let neighbors = [(1u8, 0u8), (1, 2), (2, 1), (0, 1)];
        let occupied: Vec<usize> = (0..4)
            .filter(|&i| next.agent_at(neighbors[i].0, neighbors[i].1).is_some())
            .collect();
        assert_eq!(1, occupied.len());
        assert_eq!(
            Some(Specie::Fish(Fish { life: 1 })),
            next.agent_at(neighbors[occupied[0]].0, neighbors[occupied[0]].1)
        );
        seen[occupied[0]] = true;
    }
    assert!(seen.iter().all(|&b| b), "every neighbor should occur over many seeds");
}

// A predator whose energy is down to one starves this tick, whatever its
// neighbors look like: it is gone and its cell is empty.
#[test]
fn a_shark_with_one_energy_starves_and_vacates_its_cell() {
    let mut world = empty_world(3, 3);
    put(&mut world, 1, 1, Specie::Shark(Shark { life: 0, energy: 1 }));
    put(&mut world, 1, 0, Specie::Fish(Fish { life: 0 }));

    let mut rng = StdRng::seed_from_u64(5);
    let next = world.next(&mut rng);

    assert_eq!(None, next.agent_at(1, 1));
    let (_, sharks) = next.count();
    assert_eq!(0, sharks);
}

// A fish aged 49 merely turns 50; only on the following tick does its age
// pass the threshold, so it reproduces then: the comparison is strict.
#[test]
fn a_fish_reproduces_the_tick_after_turning_fifty() {
    let mut world = empty_world(3, 3);
    put(&mut world, 1, 1, Specie::Fish(Fish { life: 49 }));

    let mut rng = StdRng::seed_from_u64(11);
    let after_one = world.next(&mut rng);
    assert_eq!((1, 0), after_one.count());
    let survivor = (0..3)
        .flat_map(|y| (0..3).map(move |x| (x, y)))
        .find_map(|(x, y)| after_one.agent_at(x, y));
    assert_eq!(Some(Specie::Fish(Fish { life: 50 })), survivor);

    let after_two = after_one.next(&mut rng);
    assert_eq!((2, 0), after_two.count());
}

// After any step each coordinate holds at most one agent, so the census
// never exceeds the number of cells.
#[test]
fn no_cell_ever_holds_more_than_one_agent() {
    let mut rng = StdRng::seed_from_u64(13);
    let mut world = Wator::new(6, 6, 20, 6, &mut rng);

    for _ in 0..30 {
        world = world.next(&mut rng);
        let mut occupied: u32 = 0;
        for y in 0..6 {
            for x in 0..6 {
                if world.agent_at(x, y).is_some() {
                    occupied += 1;
                }
            }
        }
        let (fishes, sharks) = world.count();
        assert_eq!(occupied, fishes as u32 + sharks as u32);
        assert!(occupied <= 36);
    }
}

// With every agent far from its reproduction threshold no one can multiply,
// so the population can only shrink or stay.
#[test]
fn without_ripe_agents_the_population_never_grows() {
    let mut world = empty_world(5, 5);
    put(&mut world, 0, 0, Specie::Fish(Fish { life: 0 }));
    put(&mut world, 2, 1, Specie::Fish(Fish { life: 0 }));
    put(&mut world, 4, 3, Specie::Fish(Fish { life: 0 }));
    put(&mut world, 1, 3, Specie::Shark(Shark { life: 0, energy: 50 }));
    put(&mut world, 3, 4, Specie::Shark(Shark { life: 0, energy: 50 }));

    let mut rng = StdRng::seed_from_u64(17);
    for _ in 0..10 {
        let before = total_of(&world);
        world = world.next(&mut rng);
        assert!(total_of(&world) <= before);
    }
}

// The scenario pinned by the energy accounting: a shark at energy 50 eats
// its only fish neighbor while boxed in otherwise, and lands on the fish's
// cell with 50 - 1 + 10 = 59 energy, leaving its own cell empty.
#[test]
fn a_boxed_in_shark_eats_its_only_fish_neighbor() {
    let mut world = empty_world(5, 5);
    // the hunter and its prey
    put(&mut world, 2, 2, Specie::Shark(Shark { life: 0, energy: 50 }));
    put(&mut world, 2, 1, Specie::Fish(Fish { life: 0 }));
    // box the shark in on its other sides
    put(&mut world, 1, 2, Specie::Shark(Shark { life: 0, energy: 50 }));
    put(&mut world, 3, 2, Specie::Shark(Shark { life: 0, energy: 50 }));
    put(&mut world, 2, 3, Specie::Shark(Shark { life: 0, energy: 50 }));
    // box the fish in so it cannot swim away before it is eaten
    put(&mut world, 2, 0, Specie::Fish(Fish { life: 0 }));
    put(&mut world, 1, 1, Specie::Fish(Fish { life: 0 }));
    put(&mut world, 3, 1, Specie::Fish(Fish { life: 0 }));

    let mut rng = StdRng::seed_from_u64(23);
    let next = world.next(&mut rng);

    assert_eq!(
        Some(Specie::Shark(Shark { life: 1, energy: 59 })),
        next.agent_at(2, 1)
    );
    assert_eq!(None, next.agent_at(2, 2));
}

// A sea seeded without predators stays predator-free forever: sharks never
// appear out of nothing.
#[test]
fn a_shark_free_sea_stays_shark_free() {
    let mut rng = StdRng::seed_from_u64(29);
    let mut world = Wator::new(8, 8, 10, 0, &mut rng);

    let (_, sharks) = world.count();
    assert_eq!(0, sharks);

    for _ in 0..60 {
        world = world.next(&mut rng);
        let (fishes, sharks) = world.count();
        assert_eq!(0, sharks);
        assert!(fishes >= 1);
    }
}

// The rightmost column is adjacent to the leftmost: a shark on the east
// edge hunts eastward through the seam. The fish, scanned first, slips to
// the only empty cell, and the shark still strikes at the fish's pre-tick
// cell, as all decisions read the frozen snapshot.
#[test]
fn the_grid_wraps_around_its_edges() {
    let mut world = empty_world(3, 1);
    put(&mut world, 0, 0, Specie::Fish(Fish { life: 0 }));
    put(&mut world, 2, 0, Specie::Shark(Shark { life: 0, energy: 50 }));

    let mut rng = StdRng::seed_from_u64(31);
    let next = world.next(&mut rng);

    assert_eq!(
        Some(Specie::Shark(Shark { life: 1, energy: 59 })),
        next.agent_at(0, 0)
    );
    assert_eq!(Some(Specie::Fish(Fish { life: 1 })), next.agent_at(1, 0));
    assert_eq!(None, next.agent_at(2, 0));
}

// A shark with no fish to eat and no empty cell to swim to stays exactly
// where it is, one tick older and one energy poorer; nothing ever commits
// onto a cell that held a shark when the tick began.
#[test]
fn a_shark_boxed_in_by_sharks_stays_and_pays_its_energy() {
    let mut world = empty_world(5, 5);
    put(&mut world, 2, 2, Specie::Shark(Shark { life: 0, energy: 50 }));
    put(&mut world, 2, 1, Specie::Shark(Shark { life: 0, energy: 50 }));
    put(&mut world, 2, 3, Specie::Shark(Shark { life: 0, energy: 50 }));
    put(&mut world, 1, 2, Specie::Shark(Shark { life: 0, energy: 50 }));
    put(&mut world, 3, 2, Specie::Shark(Shark { life: 0, energy: 50 }));

    let mut rng = StdRng::seed_from_u64(37);
    let next = world.next(&mut rng);

    assert_eq!(
        Some(Specie::Shark(Shark { life: 1, energy: 49 })),
        next.agent_at(2, 2)
    );
}

#[test]
fn species_report_their_kind_glyph_and_offspring() {
    let fish = Specie::Fish(Fish { life: 3 });
    let shark = Specie::Shark(Shark { life: 4, energy: 20 });

    assert!(fish.can_be_eaten());
    assert!(!shark.can_be_eaten());
    assert_eq!('.', fish.c());
    assert_eq!('#', shark.c());
    assert_eq!(Specie::Fish(Fish { life: 0 }), fish.child());
    assert_eq!(
        Specie::Shark(Shark { life: 0, energy: 100 }),
        shark.child()
    );
    assert_eq!(Fish { life: 0 }, Fish::new());
    assert_eq!(Shark { life: 0, energy: 100 }, Shark::new());
}
