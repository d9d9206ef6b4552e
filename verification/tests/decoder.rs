use wifi_qr::decoder::{read_candidate, read_modules, QrModules};
use wifi_qr::error::WifiUriError;
use wifi_qr::pipeline::{inspect, ScanStep};
use wifi_qr::preview::{preview_pixels, preview_side};
use wifi_qr::uri::parse_wifi_uri;

const HOME: [&str; 21] = [
    "111111100100101111111",
    "100000100111001000001",
    "101110101101001011101",
    "101110100101101011101",
    "101110100011001011101",
    "100000100001001000001",
    "111111101010101111111",
    "000000001100100000000",
    "111011111110011000100",
    "110001001000101101110",
    "100000111110111111111",
    "011000000100000110001",
    "101000111011110000111",
    "000000001011111010000",
    "111111101111111010011",
    "100000101110000010001",
    "101110101011001010110",
    "101110100001111001110",
    "101110101001101111101",
    "100000101110100111010",
    "111111101011000001011",
];

const ELSEWHERE: [&str; 21] = [
    "111111100100001111111",
    "100000100100001000001",
    "101110101110101011101",
    "101110100111001011101",
    "101110100111001011101",
    "100000100000001000001",
    "111111101010101111111",
    "000000001100000000000",
    "111011111011011000100",
    "110110000111101110001",
    "011110110001110010111",
    "001001000010000010010",
    "100011111100100101000",
    "000000001101110110011",
    "111111101001111010111",
    "100000101011010110000",
    "101110101010000001001",
    "101110100100101011000",
    "101110101001100010101",
    "100000101110000010010",
    "111111101001100011011",
];

const NOT_A_REAL_NETWORK: [&str; 29] = [
    "11111110010110010111001111111",
    "10000010000110011011101000001",
    "10111010100000001001001011101",
    "10111010000100110011101011101",
    "10111010010100010001001011101",
    "10000010000110010001001000001",
    "11111110101010101010101111111",
    "00000000111001110101100000000",
    "11101111101001000100011000100",
    "00000100000011101000111101110",
    "00110110110011001110001111111",
    "11001101100111100111110101011",
    "10010111000111010110111001011",
    "00011001100010000010101001110",
    "10110011101001001110101010011",
    "11111000101101110110111100000",
    "11010111100011000001111001100",
    "01110101100011111110111101010",
    "10010110001011100000111011011",
    "01111001111011000101000001001",
    "10101111000011010110111111011",
    "00000000100011000011100011100",
    "11111110101010000111101010011",
    "10000010100001011101100010010",
    "10111010101101101000111110111",
    "10111010000000111111000010101",
    "10111010110011100111000110001",
    "10000010110101110111110010010",
    "11111110110110001001111100011",
];

fn modules_of(rows: &[&str]) -> Vec<u8> {
    let mut data = Vec::new();
    for row in rows {
        for module in row.chars() {
            data.push(if module == '1' { 0 } else { 255 });
        }
    }
    data
}

fn sample() -> Vec<u8> {
    modules_of(&HOME)
}

#[test]
fn test_rqrr() {
    let result = read_candidate(29, modules_of(&NOT_A_REAL_NETWORK));
    assert_eq!(
        result,
        Some("WIFI:S:Not a real network;T:SAE;P:password;H:false;;".into())
    );
}

#[test]
fn modules_of_a_code_are_read() {
    assert_eq!(read_candidate(21, sample()), Some("WIFI:S:MyHome;;".to_string()));
    let modules = QrModules::new(21, sample()).unwrap();
    assert_eq!(modules.side(), 21);
    assert_eq!(modules.data(), &sample());
    for (y, row) in HOME.iter().enumerate() {
        for (x, module) in row.chars().enumerate() {
            assert_eq!(modules.is_dark(x, y), module == '1');
        }
    }
    assert!(modules.is_dark(0, 8));
    assert!(!modules.is_dark(8, 0));
    assert_eq!(read_modules(&modules), Some("WIFI:S:MyHome;;".to_string()));
}

#[test]
fn code_on_the_wall_gives_the_command() {
    let ScanStep::Accept { payload } = inspect(read_candidate(21, sample())) else {
        panic!("the payload was passed over");
    };
    let connection = parse_wifi_uri(payload).unwrap();
    assert_eq!(connection.render_to_nmcli(), "nmcli device wifi connect MyHome");
}

#[test]
fn code_with_another_scheme_is_found_and_then_refused() {
    let ScanStep::Accept { payload } = inspect(read_candidate(29, modules_of(&NOT_A_REAL_NETWORK)))
    else {
        panic!("the payload was passed over");
    };
    assert_eq!(
        parse_wifi_uri(payload),
        Err(WifiUriError::UnsupportedSecurityType { value: "SAE".to_string() })
    );
}

#[test]
fn payload_that_is_no_wifi_uri_is_passed_over() {
    let found = read_candidate(21, modules_of(&ELSEWHERE));
    assert_eq!(found, Some("https://a.example".to_string()));
    assert_eq!(inspect(found), ScanStep::Skip);
}

#[test]
fn blank_modules_spell_nothing() {
    assert_eq!(read_candidate(21, vec![255; 441]), None);
    assert_eq!(read_candidate(21, vec![0; 441]), None);
}

#[test]
fn a_few_damaged_modules_are_corrected() {
    let mut data = sample();
    data[20 * 21 + 20] = 255 - data[20 * 21 + 20];
    data[19 * 21 + 20] = 255 - data[19 * 21 + 20];
    assert_eq!(read_candidate(21, data), Some("WIFI:S:MyHome;;".to_string()));
}

#[test]
fn sizes_that_no_code_has_are_refused() {
    assert_eq!(QrModules::new(0, vec![]), None);
    assert_eq!(QrModules::new(17, vec![0; 289]), None);
    assert_eq!(QrModules::new(20, vec![0; 400]), None);
    assert_eq!(QrModules::new(22, vec![0; 484]), None);
    assert_eq!(QrModules::new(181, vec![0; 181 * 181]), None);
    assert_eq!(QrModules::new(21, vec![0; 440]), None);
    assert_eq!(QrModules::new(21, vec![0; 442]), None);
    assert!(QrModules::new(25, vec![0; 625]).is_some());
    assert!(QrModules::new(177, vec![0; 177 * 177]).is_some());
    assert_eq!(read_candidate(17, vec![0; 289]), None);
    assert_eq!(read_candidate(21, vec![0; 440]), None);
}

fn grey(pixels: &[u8], width: usize, row: usize, col: usize) -> u8 {
    let at = 3 * (row * width + col);
    assert_eq!(pixels[at], pixels[at + 1]);
    assert_eq!(pixels[at], pixels[at + 2]);
    pixels[at]
}

#[test]
fn preview_has_a_border_and_fresh_finder_patterns() {
    let modules = QrModules::new(21, vec![7; 441]).unwrap();
    assert_eq!(preview_side(&modules), 23);
    let pixels = preview_pixels(&modules);
    assert_eq!(pixels.len(), 3 * 23 * 23);
    for at in 0..23 {
        assert_eq!(grey(&pixels, 23, 0, at), 255);
        assert_eq!(grey(&pixels, 23, 22, at), 255);
        assert_eq!(grey(&pixels, 23, at, 0), 255);
        assert_eq!(grey(&pixels, 23, at, 22), 255);
    }
    let finder = [
        [0, 0, 0, 0, 0, 0, 0, 255],
        [0, 255, 255, 255, 255, 255, 0, 255],
        [0, 255, 0, 0, 0, 255, 0, 255],
        [0, 255, 0, 0, 0, 255, 0, 255],
        [0, 255, 0, 0, 0, 255, 0, 255],
        [0, 255, 255, 255, 255, 255, 0, 255],
        [0, 0, 0, 0, 0, 0, 0, 255],
        [255, 255, 255, 255, 255, 255, 255, 255],
    ];
    for r in 0..8 {
        for c in 0..8 {
            assert_eq!(grey(&pixels, 23, 1 + r, 1 + c), finder[r][c]);
        }
    }
    for r in 0..7 {
        for c in 0..8 {
            assert_eq!(grey(&pixels, 23, 15 + r, 1 + c), finder[r][c]);
            assert_eq!(grey(&pixels, 23, 1 + c, 15 + r), finder[c][r]);
        }
    }
    assert_eq!(grey(&pixels, 23, 14, 1), 7);
    assert_eq!(grey(&pixels, 23, 1, 14), 7);
    assert_eq!(grey(&pixels, 23, 9, 9), 7);
    assert_eq!(grey(&pixels, 23, 10, 1), 7);
    assert_eq!(grey(&pixels, 23, 21, 21), 7);
    assert_eq!(grey(&pixels, 23, 15, 15), 7);
}

#[test]
fn preview_keeps_the_modules_between_the_patterns() {
    let modules = QrModules::new(21, sample()).unwrap();
    let pixels = preview_pixels(&modules);
    let data = sample();
    for r in 8..13 {
        for c in 0..21 {
            assert_eq!(grey(&pixels, 23, 1 + r, 1 + c), data[r * 21 + c]);
        }
    }
    for r in 14..21 {
        for c in 8..21 {
            assert_eq!(grey(&pixels, 23, 1 + r, 1 + c), data[r * 21 + c]);
        }
    }
}
