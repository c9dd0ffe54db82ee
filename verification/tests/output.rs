use aspeak::{
    lookup_quality, quality_range, ArgsError, AudioFormat, ContainerFormat, Flag, OutputArgs,
    OutputFormatConfig,
};

const CONTAINERS: [ContainerFormat; 4] =
    [ContainerFormat::Mp3, ContainerFormat::Ogg, ContainerFormat::Webm, ContainerFormat::Wav];

fn no_args() -> OutputArgs {
    OutputArgs { output: None, quality: None, container_format: None, format: None }
}

#[test]
fn quality_table() {
    assert_eq!(lookup_quality(ContainerFormat::Mp3, -4), Some(AudioFormat::Audio16Khz32KBitRateMonoMp3));
    assert_eq!(lookup_quality(ContainerFormat::Mp3, -3), Some(AudioFormat::Audio16Khz64KBitRateMonoMp3));
    assert_eq!(lookup_quality(ContainerFormat::Mp3, -2), Some(AudioFormat::Audio16Khz128KBitRateMonoMp3));
    assert_eq!(lookup_quality(ContainerFormat::Mp3, -1), Some(AudioFormat::Audio24Khz48KBitRateMonoMp3));
    assert_eq!(lookup_quality(ContainerFormat::Mp3, 0), Some(AudioFormat::Audio24Khz96KBitRateMonoMp3));
    assert_eq!(lookup_quality(ContainerFormat::Mp3, 1), Some(AudioFormat::Audio24Khz160KBitRateMonoMp3));
    assert_eq!(lookup_quality(ContainerFormat::Mp3, 2), Some(AudioFormat::Audio48Khz96KBitRateMonoMp3));
    assert_eq!(lookup_quality(ContainerFormat::Mp3, 3), Some(AudioFormat::Audio48Khz192KBitRateMonoMp3));
    assert_eq!(lookup_quality(ContainerFormat::Ogg, -1), Some(AudioFormat::Ogg16Khz16BitMonoOpus));
    assert_eq!(lookup_quality(ContainerFormat::Ogg, 0), Some(AudioFormat::Ogg24Khz16BitMonoOpus));
    assert_eq!(lookup_quality(ContainerFormat::Ogg, 1), Some(AudioFormat::Ogg48Khz16BitMonoOpus));
    assert_eq!(lookup_quality(ContainerFormat::Webm, -1), Some(AudioFormat::Webm16Khz16BitMonoOpus));
    assert_eq!(lookup_quality(ContainerFormat::Webm, 0), Some(AudioFormat::Webm24Khz16BitMonoOpus));
    assert_eq!(lookup_quality(ContainerFormat::Webm, 1), Some(AudioFormat::Webm24Khz16Bit24KbpsMonoOpus));
    assert_eq!(lookup_quality(ContainerFormat::Wav, -2), Some(AudioFormat::Riff8Khz16BitMonoPcm));
    assert_eq!(lookup_quality(ContainerFormat::Wav, -1), Some(AudioFormat::Riff16Khz16BitMonoPcm));
    assert_eq!(lookup_quality(ContainerFormat::Wav, 0), Some(AudioFormat::Riff24Khz16BitMonoPcm));
    assert_eq!(lookup_quality(ContainerFormat::Wav, 1), Some(AudioFormat::Riff24Khz16BitMonoPcm));
}

#[test]
fn quality_range_is_where_the_table_has_entries() {
    assert_eq!(quality_range(ContainerFormat::Mp3), (-4, 3));
    assert_eq!(quality_range(ContainerFormat::Ogg), (-1, 1));
    assert_eq!(quality_range(ContainerFormat::Webm), (-1, 1));
    assert_eq!(quality_range(ContainerFormat::Wav), (-2, 1));
    for container in CONTAINERS {
        let (low, high) = quality_range(container);
        for quality in -300..300 {
            assert_eq!(
                lookup_quality(container, quality).is_some(),
                i32::from(low) <= quality && quality <= i32::from(high)
            );
        }
    }
}

#[test]
fn quality_out_of_range_is_an_error_that_names_both() {
    for container in CONTAINERS {
        for quality in [-129, -128, -10, -5, 4, 9, 10, 127, 128, 255, 256, 257, i32::MAX, i32::MIN]
        {
            let args = OutputArgs {
                quality: Some(quality),
                container_format: Some(container),
                ..no_args()
            };
            assert_eq!(
                args.get_audio_format(None),
                Err(ArgsError::Quality { container, quality })
            );
            let config = OutputFormatConfig::ContainerAndQuality {
                container: Some(container),
                quality: Some(quality),
            };
            assert_eq!(
                no_args().get_audio_format(Some(&config)),
                Err(ArgsError::Quality { container, quality })
            );
        }
    }
}

#[test]
fn format_named_outright_stands() {
    let config = OutputFormatConfig::AudioFormat { format: AudioFormat::AmrWb16000Hz };
    let args = OutputArgs { format: Some(AudioFormat::Raw8Khz8BitMonoALaw), ..no_args() };
    assert_eq!(args.get_audio_format(Some(&config)), Ok(AudioFormat::Raw8Khz8BitMonoALaw));
    assert_eq!(args.get_audio_format(None), Ok(AudioFormat::Raw8Khz8BitMonoALaw));
    let with_more = OutputArgs {
        format: Some(AudioFormat::Raw8Khz8BitMonoALaw),
        container_format: Some(ContainerFormat::Mp3),
        quality: Some(99),
        ..no_args()
    };
    assert_eq!(with_more.get_audio_format(None), Ok(AudioFormat::Raw8Khz8BitMonoALaw));
}

#[test]
fn container_is_looked_up() {
    let config = OutputFormatConfig::AudioFormat { format: AudioFormat::AmrWb16000Hz };
    let args = OutputArgs { container_format: Some(ContainerFormat::Mp3), ..no_args() };
    assert_eq!(args.get_audio_format(Some(&config)), Ok(AudioFormat::Audio24Khz96KBitRateMonoMp3));
    let args = OutputArgs {
        container_format: Some(ContainerFormat::Ogg),
        quality: Some(1),
        ..no_args()
    };
    assert_eq!(args.get_audio_format(None), Ok(AudioFormat::Ogg48Khz16BitMonoOpus));
}

#[test]
fn quality_without_container_is_turned_down() {
    let config = OutputFormatConfig::ContainerAndQuality {
        container: Some(ContainerFormat::Mp3),
        quality: None,
    };
    let args = OutputArgs { quality: Some(1), ..no_args() };
    assert_eq!(args.get_audio_format(Some(&config)), Err(ArgsError::QualityWithoutContainer(1)));
    assert_eq!(args.get_audio_format(None), Err(ArgsError::QualityWithoutContainer(1)));
    let args = OutputArgs { quality: Some(0), ..no_args() };
    assert_eq!(args.get_audio_format(None), Err(ArgsError::QualityWithoutContainer(0)));
}

#[test]
fn profile_decides_where_no_argument_does() {
    let config = OutputFormatConfig::AudioFormat { format: AudioFormat::AmrWb16000Hz };
    assert_eq!(no_args().get_audio_format(Some(&config)), Ok(AudioFormat::AmrWb16000Hz));
    let config = OutputFormatConfig::ContainerAndQuality {
        container: Some(ContainerFormat::Webm),
        quality: Some(-1),
    };
    assert_eq!(no_args().get_audio_format(Some(&config)), Ok(AudioFormat::Webm16Khz16BitMonoOpus));
    let config = OutputFormatConfig::ContainerAndQuality { container: None, quality: Some(-2) };
    assert_eq!(no_args().get_audio_format(Some(&config)), Ok(AudioFormat::Riff8Khz16BitMonoPcm));
    let config = OutputFormatConfig::ContainerAndQuality {
        container: Some(ContainerFormat::Mp3),
        quality: None,
    };
    assert_eq!(
        no_args().get_audio_format(Some(&config)),
        Ok(AudioFormat::Audio24Khz96KBitRateMonoMp3)
    );
    let config = OutputFormatConfig::ContainerAndQuality { container: None, quality: None };
    assert_eq!(no_args().get_audio_format(Some(&config)), Ok(AudioFormat::Riff24Khz16BitMonoPcm));
    let config = OutputFormatConfig::ContainerAndQuality { container: None, quality: Some(2) };
    assert_eq!(
        no_args().get_audio_format(Some(&config)),
        Err(ArgsError::Quality { container: ContainerFormat::Wav, quality: 2 })
    );
}

#[test]
fn default_format_where_nothing_is_said() {
    assert_eq!(no_args().get_audio_format(None), Ok(AudioFormat::Riff24Khz16BitMonoPcm));
    assert_eq!(AudioFormat::default(), AudioFormat::Riff24Khz16BitMonoPcm);
    assert_eq!(ContainerFormat::default(), ContainerFormat::Wav);
    let only_a_path = OutputArgs { output: Some("out.wav".to_owned()), ..no_args() };
    assert_eq!(only_a_path.get_audio_format(None), Ok(AudioFormat::Riff24Khz16BitMonoPcm));
}

#[test]
fn format_excludes_container_and_quality() {
    let format = Some(AudioFormat::AmrWb16000Hz);
    let with_container =
        OutputArgs { format, container_format: Some(ContainerFormat::Mp3), ..no_args() };
    assert_eq!(
        with_container.check_conflicts(),
        Err(ArgsError::Conflict { first: Flag::Format, second: Flag::ContainerFormat })
    );
    let with_quality = OutputArgs { format, quality: Some(0), ..no_args() };
    assert_eq!(
        with_quality.check_conflicts(),
        Err(ArgsError::Conflict { first: Flag::Format, second: Flag::Quality })
    );
    let with_both = OutputArgs {
        format,
        quality: Some(0),
        container_format: Some(ContainerFormat::Mp3),
        ..no_args()
    };
    assert_eq!(
        with_both.check_conflicts(),
        Err(ArgsError::Conflict { first: Flag::Format, second: Flag::Quality })
    );
    assert_eq!(OutputArgs { format, ..no_args() }.check_conflicts(), Ok(()));
    let without_format = OutputArgs {
        quality: Some(0),
        container_format: Some(ContainerFormat::Mp3),
        ..no_args()
    };
    assert_eq!(without_format.check_conflicts(), Ok(()));
    assert_eq!(no_args().check_conflicts(), Ok(()));
}

#[test]
fn container_names() {
    assert_eq!(ContainerFormat::Mp3.as_str(), "mp3");
    assert_eq!(ContainerFormat::Ogg.as_str(), "ogg");
    assert_eq!(ContainerFormat::Webm.as_str(), "webm");
    assert_eq!(ContainerFormat::Wav.as_str(), "wav");
}
