use mcwire::stream::{ByteChannel, DataStream, IoError, ReadWrite};

fn channel_of(bytes: &[u8]) -> ByteChannel {
    let mut channel = ByteChannel::new();
    channel.feed(bytes);
    channel
}

#[test]
fn reading_the_whole_budget_leaves_zero() {
    let mut stream = DataStream::new(channel_of(&[1, 2, 3, 4, 5, 6]), 4);
    assert_eq!(stream.remaining_size(), 4);
    assert_eq!(stream.read_exact(4), Ok(vec![1, 2, 3, 4]));
    assert_eq!(stream.remaining_size(), 0);
    let channel = stream.into_inner();
    assert_eq!(channel.available(), 2);
}

#[test]
fn reading_past_the_budget_is_an_error() {
    let mut stream = DataStream::new(channel_of(&[1, 2, 3, 4, 5, 6]), 4);
    assert_eq!(stream.read_exact(5), Err(IoError::UnexpectedEof));
    assert_eq!(stream.remaining_size(), 0);
    assert_eq!(stream.read_byte(), Err(IoError::UnexpectedEof));
    let mut channel = stream.into_inner();
    assert_eq!(channel.available(), 2);
    assert_eq!(channel.read_byte(), Some(5));
}

#[test]
fn every_read_is_taken_out_of_the_budget() {
    let mut stream = DataStream::new(channel_of(&[9, 8, 7, 6]), 3);
    assert_eq!(stream.read_byte(), Ok(9));
    assert_eq!(stream.remaining_size(), 2);
    assert_eq!(stream.read(10), vec![8, 7]);
    assert_eq!(stream.remaining_size(), 0);
    assert_eq!(stream.read(10), Vec::<u8>::new());
}

#[test]
fn read_takes_no_more_than_asked() {
    let mut stream = DataStream::new(channel_of(&[9, 8, 7, 6]), 4);
    assert_eq!(stream.read(2), vec![9, 8]);
    assert_eq!(stream.remaining_size(), 2);
    assert_eq!(stream.read(0), Vec::<u8>::new());
    assert_eq!(stream.remaining_size(), 2);
}

#[test]
fn a_short_channel_ends_the_read() {
    let mut stream = DataStream::new(channel_of(&[1, 2]), 5);
    assert_eq!(stream.read_exact(3), Err(IoError::UnexpectedEof));
    assert_eq!(stream.remaining_size(), 3);
    assert_eq!(stream.into_inner().available(), 0);
}

#[test]
fn writes_pass_through_and_leave_the_budget() {
    let mut stream = DataStream::new(channel_of(&[1, 2, 3]), 2);
    assert_eq!(stream.write(&[0xaa, 0xbb]), 2);
    stream.flush();
    assert_eq!(stream.remaining_size(), 2);
    assert_eq!(stream.read_byte(), Ok(1));
    let mut channel = stream.into_inner();
    assert_eq!(channel.take_written(), vec![0xaa, 0xbb]);
    assert_eq!(channel.take_written(), Vec::<u8>::new());
    assert_eq!(channel.available(), 2);
}

#[test]
fn channel_reads_in_order_and_ends() {
    let mut channel = ByteChannel::new();
    assert_eq!(channel.read_byte(), None);
    channel.feed(&[1, 2]);
    channel.feed(&[3]);
    assert_eq!(channel.available(), 3);
    assert_eq!(channel.read_byte(), Some(1));
    assert_eq!(channel.read_byte(), Some(2));
    assert_eq!(channel.read_byte(), Some(3));
    assert_eq!(channel.read_byte(), None);
    channel.write_all(&[7]);
    channel.write_all(&[8, 9]);
    assert_eq!(channel.take_written(), vec![7, 8, 9]);
}

#[test]
fn channels_and_streams_read_and_write_alike() {
    let mut channel = ByteChannel::new();
    channel.feed(&[1, 2, 3]);
    assert_eq!(ReadWrite::read(&mut channel, 2), vec![1, 2]);
    assert_eq!(ReadWrite::read(&mut channel, 2), vec![3]);
    assert_eq!(ReadWrite::read(&mut channel, 2), Vec::<u8>::new());
    ReadWrite::write_all(&mut channel, &[9]);
    channel.feed(&[4, 5, 6]);
    let mut stream = DataStream::new(channel, 2);
    assert_eq!(ReadWrite::read(&mut stream, 5), vec![4, 5]);
    ReadWrite::write_all(&mut stream, &[8]);
    assert_eq!(stream.into_inner().take_written(), vec![9, 8]);
}
