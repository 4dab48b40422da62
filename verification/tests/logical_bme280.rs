use flint_drivers::bus::BusError;
use flint_drivers::logical::bme280::{
    compensate_humidity, compensate_pressure, compensate_temperature, humidity_in_range,
    pressure_in_range, raw20, read_calibration, read_raw, temperature_in_range, Bme280,
    Calibration, Quantity, Reply, Request, Transport, Variant, CHIP_ID_BME280, CHIP_ID_BMP280,
    REG_CALIB_00, REG_CALIB_26, REG_ID,
};

struct MockBmeBus {
    chip_id: u8,
    calib_low: [u8; 26],
    calib_high: [u8; 7],
    writes: Vec<u8>,
    reads: Vec<u8>,
    broken_at: Option<u8>,
}

impl Default for MockBmeBus {
    fn default() -> Self {
        Self {
            chip_id: CHIP_ID_BME280,
            calib_low: [0; 26],
            calib_high: [0; 7],
            writes: Vec::new(),
            reads: Vec::new(),
            broken_at: None,
        }
    }
}

impl MockBmeBus {
    fn serve(&mut self, request: &Request) -> Reply {
        match *request {
            Request::Read { addr, len } => {
                self.reads.push(addr);
                if self.broken_at == Some(addr) {
                    return Reply::Failed(BusError::Timeout);
                }
                let bytes = match addr {
                    REG_ID => vec![self.chip_id],
                    REG_CALIB_00 => self.calib_low.to_vec(),
                    REG_CALIB_26 => self.calib_high.to_vec(),
                    _ => unreachable!(),
                };
                assert_eq!(bytes.len(), len);
                Reply::Data(bytes)
            }
            Request::Write { addr, value } => {
                if self.broken_at == Some(addr) {
                    return Reply::Failed(BusError::Timeout);
                }
                self.writes.extend_from_slice(&[addr, value]);
                Reply::Written
            }
            Request::Done(_) => unreachable!(),
        }
    }
}

fn init(sensor: &mut Bme280, bus: &mut MockBmeBus) -> Result<(), BusError> {
    let mut request = sensor.init(Reply::Start);
    loop {
        if let Request::Done(result) = request {
            return result;
        }
        let reply = bus.serve(&request);
        request = sensor.init(reply);
    }
}

fn le16(v: i32) -> [u8; 2] {
    [(v & 0xFF) as u8, ((v >> 8) & 0xFF) as u8]
}

fn worked_example_calib_low() -> [u8; 26] {
    let mut buf = [0u8; 26];
    buf[0..2].copy_from_slice(&le16(27504));
    buf[2..4].copy_from_slice(&le16(26435));
    buf[4..6].copy_from_slice(&le16(-1000i32));
    buf[6..8].copy_from_slice(&le16(36477));
    buf[8..10].copy_from_slice(&le16(-10685i32));
    buf[10..12].copy_from_slice(&le16(3024));
    buf[12..14].copy_from_slice(&le16(2855));
    buf[14..16].copy_from_slice(&le16(140));
    buf[16..18].copy_from_slice(&le16(-7i32));
    buf[18..20].copy_from_slice(&le16(15500));
    buf[20..22].copy_from_slice(&le16(-14600i32));
    buf[22..24].copy_from_slice(&le16(6000));
    buf[25] = 75;
    buf
}

fn worked_example_calib_high() -> [u8; 7] {
    [
        0x80, 0x01,
        0x00,
        0x11,
        0x08,
        0x00,
        30,
    ]
}

#[test]
fn bme280_chip_id_ok() {
    let mut bus = MockBmeBus { chip_id: CHIP_ID_BME280, ..Default::default() };
    let mut sensor = Bme280::new(Transport::I2c);
    assert_eq!(init(&mut sensor, &mut bus), Ok(()));
    assert_eq!(bus.reads[0], REG_ID);
    assert_eq!(sensor.variant(), Some(Variant::Bme280));
}

#[test]
fn bme280_init_rejects_unknown_chip_id() {
    let mut bus = MockBmeBus { chip_id: 0xFF, ..Default::default() };
    let mut sensor = Bme280::new(Transport::I2c);
    assert_eq!(init(&mut sensor, &mut bus), Err(BusError::DeviceNotResponding));
    assert_eq!(sensor.variant(), None);
}

#[test]
fn bme280_init_detects_bmp280_and_gates_humidity() {
    let mut bus = MockBmeBus {
        chip_id: CHIP_ID_BMP280,
        calib_low: worked_example_calib_low(),
        ..Default::default()
    };
    let mut sensor = Bme280::new(Transport::I2c);
    assert!(init(&mut sensor, &mut bus).is_ok());
    assert_eq!(sensor.variant(), Some(Variant::Bmp280));
    assert_eq!(sensor.sample(Quantity::Humidity), Err(BusError::InvalidConfig));
    assert_eq!(
        sensor.read_humidity(&[0, 0, 0, 0x7E, 0xED, 0]),
        Err(BusError::InvalidConfig)
    );
}

#[test]
fn bme280_read_before_init_fails_closed() {
    let sensor = Bme280::new(Transport::I2c);
    assert_eq!(sensor.sample(Quantity::Temperature), Err(BusError::InvalidConfig));
    assert_eq!(sensor.read_temperature(&[0; 8]), Err(BusError::InvalidConfig));
}

#[test]
fn spi_write_clears_read_bit_i2c_leaves_address_unmodified() {
    let mut bus = MockBmeBus {
        calib_low: worked_example_calib_low(),
        calib_high: worked_example_calib_high(),
        ..Default::default()
    };

    let mut spi_sensor = Bme280::new(Transport::Spi);
    assert!(init(&mut spi_sensor, &mut bus).is_ok());
    assert_eq!(&bus.writes[0..2], &[0x60, 0xB6]);
    bus.writes.clear();

    let mut i2c_sensor = Bme280::new(Transport::I2c);
    assert!(init(&mut i2c_sensor, &mut bus).is_ok());
    assert_eq!(&bus.writes[0..2], &[0xE0, 0xB6]);
}

#[test]
fn compensate_temperature_matches_bme280_worked_example() {
    let calib = Calibration { dig_t1: 27504, dig_t2: 26435, dig_t3: -1000, ..Default::default() };
    let (t_fine, temp) = compensate_temperature(&calib, 519_888);
    assert_eq!(t_fine, 128_422);
    assert_eq!(temp, 2508);
}

#[test]
fn compensate_pressure_matches_double_precision_reference() {
    let calib = Calibration {
        dig_p1: 36477, dig_p2: -10685, dig_p3: 3024, dig_p4: 2855, dig_p5: 140,
        dig_p6: -7, dig_p7: 15500, dig_p8: -14600, dig_p9: 6000,
        ..Default::default()
    };
    let t_fine = 128_422;
    let adc_p = 415_148;

    let fixed = compensate_pressure(&calib, adc_p, t_fine).expect("dig_P1 != 0");
    let reference = reference_compensate_pressure_f64(&calib, adc_p, t_fine);

    let fixed_pa = fixed as f64 / 256.0;
    assert!(
        (fixed_pa - reference).abs() < 1.0,
        "fixed-point {fixed_pa} Pa vs double-precision reference {reference} Pa"
    );
}

#[test]
fn compensate_humidity_matches_double_precision_reference() {
    let calib = Calibration {
        dig_h1: 75, dig_h2: 384, dig_h3: 0, dig_h4: 280, dig_h5: 0, dig_h6: 30,
        ..Default::default()
    };
    let t_fine = 128_422;
    let adc_h = 32_741;

    let fixed = compensate_humidity(&calib, adc_h, t_fine);
    let reference = reference_compensate_humidity_f64(&calib, adc_h, t_fine);

    let fixed_pct = fixed as f64 / 1024.0;
    assert!(
        (fixed_pct - reference).abs() < 0.1,
        "fixed-point {fixed_pct}% vs double-precision reference {reference}%"
    );
}

#[test]
fn compensate_humidity_clamps_to_valid_range() {
    let calib = Calibration { dig_h1: 75, dig_h2: 384, dig_h3: 0, dig_h4: 280, dig_h5: 0, dig_h6: 30, ..Default::default() };

    let low = compensate_humidity(&calib, 0, 128_422);
    assert!((0.0..=100.0).contains(&(low as f64 / 1024.0)));

    let high = compensate_humidity(&calib, 65535, 128_422);
    assert!((0.0..=100.0).contains(&(high as f64 / 1024.0)));
}

fn reference_compensate_pressure_f64(calib: &Calibration, adc_p: i32, t_fine: i32) -> f64 {
    let (dig_p1, dig_p2, dig_p3, dig_p4, dig_p5, dig_p6, dig_p7, dig_p8, dig_p9) = (
        calib.dig_p1 as f64, calib.dig_p2 as f64, calib.dig_p3 as f64, calib.dig_p4 as f64,
        calib.dig_p5 as f64, calib.dig_p6 as f64, calib.dig_p7 as f64, calib.dig_p8 as f64,
        calib.dig_p9 as f64,
    );
    let mut var1 = (t_fine as f64 / 2.0) - 64000.0;
    let mut var2 = var1 * var1 * dig_p6 / 32768.0;
    var2 += var1 * dig_p5 * 2.0;
    var2 = (var2 / 4.0) + (dig_p4 * 65536.0);
    var1 = (dig_p3 * var1 * var1 / 524288.0 + dig_p2 * var1) / 524288.0;
    var1 = (1.0 + var1 / 32768.0) * dig_p1;
    if var1 == 0.0 {
        return 0.0;
    }
    let mut p = 1_048_576.0 - adc_p as f64;
    p = (p - (var2 / 4096.0)) * 6250.0 / var1;
    let var1_f = dig_p9 * p * p / 2_147_483_648.0;
    let var2_f = p * dig_p8 / 32768.0;
    p + (var1_f + var2_f + dig_p7) / 16.0
}

fn reference_compensate_humidity_f64(calib: &Calibration, adc_h: i32, t_fine: i32) -> f64 {
    let (dig_h1, dig_h2, dig_h3, dig_h4, dig_h5, dig_h6) = (
        calib.dig_h1 as f64, calib.dig_h2 as f64, calib.dig_h3 as f64,
        calib.dig_h4 as f64, calib.dig_h5 as f64, calib.dig_h6 as f64,
    );
    let mut var_h = t_fine as f64 - 76800.0;
    var_h = (adc_h as f64 - (dig_h4 * 64.0 + dig_h5 / 16384.0 * var_h))
        * (dig_h2 / 65536.0
            * (1.0 + dig_h6 / 67_108_864.0 * var_h * (1.0 + dig_h3 / 67_108_864.0 * var_h)));
    var_h *= 1.0 - dig_h1 * var_h / 524_288.0;
    var_h.clamp(0.0, 100.0)
}

#[test]
fn bme280_full_pipeline_reports_worked_example_temperature() {
    let mut bus = MockBmeBus {
        calib_low: worked_example_calib_low(),
        calib_high: worked_example_calib_high(),
        ..Default::default()
    };
    let adc_t = 519_888i32;
    let data = [
        0x00, 0x00, 0x00,
        ((adc_t >> 12) & 0xFF) as u8,
        ((adc_t >> 4) & 0xFF) as u8,
        ((adc_t << 4) & 0xF0) as u8,
        0x7F, 0xE5,
    ];

    let mut sensor = Bme280::new(Transport::I2c);
    assert!(init(&mut sensor, &mut bus).is_ok());
    assert_eq!(sensor.sample(Quantity::Temperature), Ok((0xF7, 8)));

    let temp = sensor.read_temperature(&data).unwrap() as f32 / 100.0;
    assert!((temp - 25.08).abs() < 0.01, "got {temp}");

    assert!(sensor.read_pressure(&data).is_ok());
    assert!(sensor.read_humidity(&data).is_ok());
}

#[test]
fn an_initialisation_programs_humidity_before_measurement() {
    let mut bus = MockBmeBus::default();
    let mut sensor = Bme280::new(Transport::I2c);
    assert_eq!(init(&mut sensor, &mut bus), Ok(()));
    assert_eq!(bus.writes, vec![0xE0, 0xB6, 0xF2, 0x01, 0xF4, 0x27, 0xF5, 0xA0]);
    assert_eq!(bus.reads, vec![REG_ID, REG_CALIB_00, REG_CALIB_26]);
}

#[test]
fn a_bmp280_is_programmed_without_humidity() {
    let mut bus = MockBmeBus { chip_id: CHIP_ID_BMP280, ..Default::default() };
    let mut sensor = Bme280::new(Transport::I2c);
    assert_eq!(init(&mut sensor, &mut bus), Ok(()));
    assert_eq!(bus.writes, vec![0xE0, 0xB6, 0xF4, 0x27, 0xF5, 0xA0]);
    assert_eq!(bus.reads, vec![REG_ID, REG_CALIB_00]);
    assert_eq!(sensor.sample(Quantity::Pressure), Ok((0xF7, 6)));
}

#[test]
fn a_failed_step_ends_the_initialisation_with_its_error() {
    for addr in [REG_ID, 0xE0, REG_CALIB_00, REG_CALIB_26, 0xF2, 0xF4, 0xF5] {
        let mut bus = MockBmeBus { broken_at: Some(addr), ..Default::default() };
        let mut sensor = Bme280::new(Transport::I2c);
        assert_eq!(init(&mut sensor, &mut bus), Err(BusError::Timeout));
        assert_eq!(sensor.sample(Quantity::Temperature), Err(BusError::InvalidConfig));
    }
}

#[test]
fn a_reading_is_taken_apart_into_its_counts() {
    assert_eq!(raw20(0x7E, 0xED, 0x00), 519_888);
    assert_eq!(raw20(0xFF, 0xFF, 0xFF), 0xF_FFFF);
    let c = read_raw(Variant::Bme280, &[0x65, 0x5A, 0xC0, 0x7E, 0xED, 0x00, 0x7F, 0xE5]);
    assert_eq!((c.pressure, c.temperature, c.humidity), (415_148, 519_888, Some(32_741)));
    let c = read_raw(Variant::Bmp280, &[0x65, 0x5A, 0xC0, 0x7E, 0xED, 0x00]);
    assert_eq!(c.humidity, None);
}

#[test]
fn the_trim_blocks_are_little_endian_and_signed() {
    let c = read_calibration(
        Variant::Bme280,
        &worked_example_calib_low(),
        &worked_example_calib_high(),
    );
    assert_eq!((c.dig_t1, c.dig_t2, c.dig_t3), (27504, 26435, -1000));
    assert_eq!((c.dig_p1, c.dig_p2, c.dig_p9), (36477, -10685, 6000));
    assert_eq!((c.dig_h1, c.dig_h2, c.dig_h3), (75, 384, 0));
    assert_eq!((c.dig_h4, c.dig_h5, c.dig_h6), (280, 0, 30));
    let c = read_calibration(Variant::Bmp280, &worked_example_calib_low(), &[]);
    assert_eq!((c.dig_t1, c.dig_h1, c.dig_h2), (27504, 0, 0));
}

#[test]
fn the_ranges_of_the_compensations_are_tested_beforehand() {
    let calib = Calibration { dig_t1: 27504, dig_t2: 26435, dig_t3: -1000, ..Default::default() };
    assert!(temperature_in_range(&calib, 519_888));
    assert!(!temperature_in_range(&calib, i32::MAX));
    assert!(pressure_in_range(&calib, 415_148, 128_422));
    assert_eq!(compensate_pressure(&calib, 415_148, 128_422), None);
    assert!(humidity_in_range(&calib, 32_741, 128_422));
}
