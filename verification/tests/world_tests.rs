use befunge_rust::world::World;

#[test]
fn world_hello_world_program() {
    let src = ">              v\nv  ,,,,,\"Hello\"<\n>48*,          v\nv,,,,,,\"World!\"<\n>25*,@";
    let world = World::from_source_string(src);
    assert_eq!(world.get(0, 0), b'>');
    assert_eq!(world.get(15, 0), b'v');
    assert_eq!(world.get(15, 4), b' ');
    assert_eq!(world.get(0, 4), b'>');
    assert_eq!(world.get(16, 5), b'>');
}

#[test]
fn random_program() {
    let width = 128;
    let height = 64;
    let world = World::from_random(width, height);
    assert_eq!(world.width(), width);
    assert_eq!(world.height(), height);
    assert_eq!(world.rows().len(), height);
    for belt in world.rows() {
        assert_eq!(belt.len(), width);
    }
}

#[test]
fn rows_are_padded_to_the_longest() {
    let world = World::from_source_string("ab\ncdef\n\ng");
    assert_eq!(world.width(), 4);
    assert_eq!(world.height(), 4);
    assert_eq!(
        *world.rows(),
        vec![b"ab  ".to_vec(), b"cdef".to_vec(), b"    ".to_vec(), b"g   ".to_vec()]
    );
}

#[test]
fn trailing_newline_gives_a_trailing_row() {
    let world = World::from_source_string("12\n");
    assert_eq!(world.width(), 2);
    assert_eq!(world.height(), 2);
    assert_eq!(*world.rows(), vec![b"12".to_vec(), b"  ".to_vec()]);
}

#[test]
fn empty_text_gives_one_row_without_cells() {
    let world = World::from_source_string("");
    assert_eq!(world.width(), 0);
    assert_eq!(world.height(), 1);
    let world = World::from_source_string("\n\n");
    assert_eq!(world.width(), 0);
    assert_eq!(world.height(), 3);
}

#[test]
fn bytes_beyond_ascii_are_kept() {
    let world = World::from_source_string("é@");
    assert_eq!(world.width(), 3);
    assert_eq!(*world.rows(), vec![vec![0xC3, 0xA9, b'@']]);
    let world = World::from_bytes(&[0xFF, 10, 1, 2]);
    assert_eq!(*world.rows(), vec![vec![0xFF, 32], vec![1, 2]]);
}

#[test]
fn set_then_get_returns_the_value() {
    let mut world = World::from_source_string("abc\ndef");
    world.set(1, 1, b'X');
    assert_eq!(world.get(1, 1), b'X');
    assert_eq!(world.get(4, 3), b'X');
    assert_eq!(*world.rows(), vec![b"abc".to_vec(), b"dXf".to_vec()]);
    world.set(5, 2, b'Y');
    assert_eq!(world.get(2, 0), b'Y');
    assert_eq!(world.get(5, 2), b'Y');
    assert_eq!(world.width(), 3);
    assert_eq!(world.height(), 2);
}

#[test]
fn get_is_periodic() {
    let world = World::from_source_string("abc\ndef");
    for k in 0..5usize {
        for y in 0..2usize {
            for x in 0..3usize {
                assert_eq!(world.get(x + k * 3, y + k * 2), world.get(x, y));
            }
        }
    }
    assert_eq!(world.get(usize::MAX, usize::MAX), world.get(usize::MAX % 3, usize::MAX % 2));
}
