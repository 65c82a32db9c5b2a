//! Collisions on demand: the backward construction produces messages that
//! hash to any chosen target digest.

use tenthash::collision::{colliding_message, generate_colliding_messages};
use tenthash::hash;

#[test]
fn generate_colliding_messages_01() {
    let h = hash(b"Hello world!");
    let cols = generate_colliding_messages(h, 20);
    assert_eq!(cols.len(), 20);
    for data in cols {
        let h2 = hash(&data);
        assert_eq!(h, h2);
    }
}

#[test]
fn colliding_message_hits_fixed_target() {
    let target: [u8; 20] = [
        0, 1, 2, 3, 4, 5, 6, 7, 8, 9, 10, 11, 12, 13, 14, 15, 16, 17, 18, 19,
    ];
    let msg = colliding_message(target, 0x0123456789abcdef, [11, 22, 33, 44]);
    assert_eq!(msg.len(), 64);
    assert_eq!(hash(&msg), target);

    // A different filler gives a different message with the same digest.
    let msg2 = colliding_message(target, 77, [11, 22, 33, 44]);
    assert_ne!(msg, msg2);
    assert_eq!(hash(&msg2), target);
}
