pub mod garbage_head;
pub mod key_hash_map;
pub mod playfield_id;
pub mod playfield;
