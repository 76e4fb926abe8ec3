use si1145::{Bus, Delay, Port};

/// A bus that notes what it is asked and answers as told.
struct Scripted {
    asked: Vec<(u8, Vec<u8>, usize)>,
    answer: Result<(), u8>,
    data: Vec<u8>,
}

impl Scripted {
    fn answering(answer: Result<(), u8>, data: &[u8]) -> Scripted {
        Scripted { asked: Vec::new(), answer, data: data.to_vec() }
    }
}

impl Bus for &mut Scripted {
    type Error = u8;

    fn write(&mut self, address: u8, bytes: &[u8]) -> Result<(), u8> {
        self.asked.push((address, bytes.to_vec(), 0));
        self.answer
    }

    fn write_read(&mut self, address: u8, bytes: &[u8], buffer: &mut [u8]) -> Result<(), u8> {
        self.asked.push((address, bytes.to_vec(), buffer.len()));
        if self.answer.is_ok() {
            buffer.copy_from_slice(&self.data[..buffer.len()]);
        }
        self.answer
    }
}

/// A delay that adds up what it was asked to wait.
struct Waited(Vec<u32>);

impl Delay for Waited {
    fn delay_ms(&mut self, ms: u32) {
        self.0.push(ms);
    }
}

#[test]
fn port_hands_writes_to_the_bus() {
    let mut bus = Scripted::answering(Ok(()), &[]);
    let mut port = Port::new(&mut bus);
    assert_eq!(port.write(0x60, &[0x18, 0x01]), Ok(()));
    assert_eq!(port.write(0x12, &[]), Ok(()));
    assert_eq!(bus.asked, vec![(0x60, vec![0x18, 0x01], 0), (0x12, vec![], 0)]);
}

#[test]
fn port_hands_faults_back() {
    let mut bus = Scripted::answering(Err(9), &[0xAA, 0xBB]);
    let mut port = Port::new(&mut bus);
    assert_eq!(port.write(0x60, &[0x18, 0x01]), Err(9));
    let mut buffer = [0x11u8; 2];
    assert_eq!(port.write_read(0x60, &[0x22], &mut buffer), Err(9));
    assert_eq!(buffer, [0x11, 0x11]);
    assert_eq!(bus.asked, vec![(0x60, vec![0x18, 0x01], 0), (0x60, vec![0x22], 2)]);
}

#[test]
fn port_hands_reads_to_the_bus() {
    let mut bus = Scripted::answering(Ok(()), &[0x34, 0x12, 0x56]);
    let mut port = Port::new(&mut bus);
    let mut two = [0u8; 2];
    assert_eq!(port.write_read(0x60, &[0x22], &mut two), Ok(()));
    assert_eq!(two, [0x34, 0x12]);
    let mut one = [0u8; 1];
    assert_eq!(port.write_read(0x60, &[0x20], &mut one), Ok(()));
    assert_eq!(one, [0x34]);
    assert_eq!(bus.asked, vec![(0x60, vec![0x22], 2), (0x60, vec![0x20], 1)]);
}

#[test]
fn port_pauses_on_the_delay_it_is_lent() {
    let mut bus = Scripted::answering(Ok(()), &[]);
    let mut port = Port::new(&mut bus);
    let mut delay = Waited(Vec::new());
    port.pause(&mut delay, 2);
    port.pause(&mut delay, 1000);
    assert_eq!(delay.0, vec![2, 1000]);
    assert!(bus.asked.is_empty());
}
