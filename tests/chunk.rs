use pngme::chunk::Chunk;

fn chunk_testing_chunk() -> Chunk {
    let chunk_data = chunk_chunk_bytes(2882656334);
    Chunk::parse(&chunk_data).unwrap()
}

fn chunk_chunk_bytes(crc: u32) -> Vec<u8> {
    let data_length: u32 = 42;
    let chunk_type = "RuSt".as_bytes();
    let message_bytes = "This is where your secret message will be!".as_bytes();

    data_length
        .to_be_bytes()
        .iter()
        .chain(chunk_type.iter())
        .chain(message_bytes.iter())
        .chain(crc.to_be_bytes().iter())
        .copied()
        .collect()
}

#[test]
fn chunk_test_chunk_length() {
    let chunk = chunk_testing_chunk();
    assert_eq!(chunk.length(), 42);
}

#[test]
fn chunk_test_chunk_type() {
    let chunk = chunk_testing_chunk();
    assert_eq!(chunk.chunk_type().to_string(), String::from("RuSt"));
}

#[test]
fn chunk_test_chunk_string() {
    let chunk = chunk_testing_chunk();
    let chunk_string = chunk.data_as_string().unwrap();
    let expected_chunk_string = String::from("This is where your secret message will be!");
    assert_eq!(chunk_string, expected_chunk_string);
}

#[test]
fn chunk_test_chunk_crc() {
    let chunk = chunk_testing_chunk();
    assert_eq!(chunk.crc(), 2882656334);
}

#[test]
fn chunk_test_valid_chunk_from_bytes() {
    let chunk_data = chunk_chunk_bytes(2882656334);

    let chunk = Chunk::parse(&chunk_data).unwrap();

    let chunk_string = chunk.data_as_string().unwrap();
    let expected_chunk_string = String::from("This is where your secret message will be!");

    assert_eq!(chunk.length(), 42);
    assert_eq!(chunk.chunk_type().to_string(), String::from("RuSt"));
    assert_eq!(chunk_string, expected_chunk_string);
    assert_eq!(chunk.crc(), 2882656334);
}

#[test]
fn chunk_test_invalid_chunk_from_bytes() {
    let chunk_data = chunk_chunk_bytes(2882656333);

    let chunk = Chunk::parse(&chunk_data);

    assert!(chunk.is_err());
}

#[test]
pub fn chunk_test_chunk_trait_impls() {
    let chunk_data = chunk_chunk_bytes(2882656334);

    let chunk: Chunk = Chunk::parse(&chunk_data).unwrap();

    let _chunk_string = chunk.data_as_string().unwrap();
}
